//! The decisions of a handler that serves files from a directory.
//!
//! The handler never touches the file system. It says what it needs next, a
//! path resolved or a file read, and takes the outcome back: the caller does
//! the work in between.

use super::method::Method;
use super::request::{Request, RequestView};
use super::response::{plain, Response, ResponseView};
use super::status_code::StatusCode;
use crate::text::text_eq;
use vstd::prelude::*;
use vstd::string::StringExecFns;

verus! {

/// What a request asks for.
pub enum Route {
    /// The protocol is not `HTTP/1.1`.
    VersionNotSupported,
    /// The method is not `GET`.
    MethodNotAllowed,
    /// The health check, answered without a file.
    Health,
    /// A file that has a path of its own; without it the answer has no body.
    Page(Seq<char>),
    /// The file that the path names; without it the answer is "not found".
    Asset(Seq<char>),
}

/// The route of a request: protocol first, then method, then path.
pub open spec fn route(request: RequestView) -> Route {
    if request.protocol != "HTTP/1.1"@ {
        Route::VersionNotSupported
    } else if request.method != Method::GET {
        Route::MethodNotAllowed
    } else if request.path == "/"@ {
        Route::Page("index.html"@)
    } else if request.path == "/favicon.ico"@ {
        Route::Page("favicon.ico"@)
    } else if request.path == "/health"@ {
        Route::Health
    } else {
        Route::Asset(request.path)
    }
}

/// The name of the file that a route asks for, if it asks for one.
pub open spec fn file_of(route: Route) -> Option<Seq<char>> {
    match route {
        Route::Page(name) => Some(name),
        Route::Asset(name) => Some(name),
        _ => None,
    }
}

/// The answer to a request, given the content of the file it asks for;
/// `None` stands for a file that is missing, unreadable or out of bounds.
pub open spec fn reply(request: RequestView, content: Option<Seq<char>>) -> ResponseView {
    match route(request) {
        Route::VersionNotSupported => plain(StatusCode::HTTPVersionNotSupported, None),
        Route::MethodNotAllowed => plain(StatusCode::MethodNotAllowed, None),
        Route::Health => plain(StatusCode::OK, Some("OK"@)),
        Route::Page(_) => plain(StatusCode::OK, content),
        Route::Asset(name) => match content {
            Some(text) => plain(StatusCode::OK, Some(text)),
            None => plain(StatusCode::NotFound, Some(name + " not found"@)),
        },
    }
}

/// The path under `root` at which the file `name` is looked for.
pub open spec fn candidate(root: Seq<char>, name: Seq<char>) -> Seq<char> {
    root + "/"@ + name
}

/// What the handler needs next.
#[derive(Debug)]
pub enum Step {
    /// Resolve this path to its canonical form, then call
    /// [`RequestHandler::resolved`].
    Resolve(String),
    /// Read the file at this canonical path, then call
    /// [`RequestHandler::finish`].
    Read(String),
    /// Nothing: this is the answer.
    Reply(Response),
}

/// A handler that serves the files under one directory.
#[derive(Debug)]
pub struct RequestHandler {
    public_path: String,
}

/// Whether the path `path` lies within the path `base`: whether `base` is a
/// prefix of `path`, component by component, as
/// `std::path::Path::starts_with` decides it. The test reads the two texts
/// and nothing else, so the two texts fix the answer.
pub uninterp spec fn path_within(path: Seq<char>, base: Seq<char>) -> bool;

/// `std::path::Path::starts_with`, called on `path` with the prefix `base`.
/// Its answer is not proved here: it is taken to be `path_within` of the two
/// texts, in this order.
#[verifier::external_body]
fn path_starts_with(path: &str, base: &str) -> (r: bool)
    ensures
        r == path_within(path@, base@),
{
    std::path::Path::new(path).starts_with(base)
}

impl RequestHandler {
    /// The directory that is served.
    pub closed spec fn root(&self) -> Seq<char> {
        self.public_path@
    }

    /// A handler that serves the files under `public_path`.
    pub fn new(public_path: String) -> (r: RequestHandler)
        ensures
            r.root() == public_path@,
    {
        RequestHandler { public_path }
    }

    /// The directory that is served.
    pub fn public_path(&self) -> (r: &str)
        ensures
            r@ == self.root(),
    {
        self.public_path.as_str()
    }

    /// The name of the file that `req` asks for, if it asks for one.
    fn file_name<'a>(&self, req: &Request<'a>) -> (r: Option<&'a str>)
        ensures
            match r {
                Some(name) => file_of(route(req@)) == Some(name@),
                None => file_of(route(req@)) is None,
            },
    {
        if !text_eq(req.protocol(), "HTTP/1.1") {
            None
        } else {
            match req.method() {
                Method::GET => {
                    let path = req.path();
                    if text_eq(path, "/") {
                        Some("index.html")
                    } else if text_eq(path, "/favicon.ico") {
                        Some("favicon.ico")
                    } else if text_eq(path, "/health") {
                        None
                    } else {
                        Some(path)
                    }
                },
                _ => None,
            }
        }
    }

    /// The first step for a request: the path to resolve where the request
    /// asks for a file, the answer where it does not.
    pub fn begin(&self, req: &Request) -> (step: Step)
        ensures
            match file_of(route(req@)) {
                Some(name) => step matches Step::Resolve(path) && path@ == candidate(
                    self.root(),
                    name,
                ),
                None => step matches Step::Reply(response) && response@ == reply(req@, None),
            },
    {
        match self.file_name(req) {
            Some(name) => {
                let mut path = self.public_path.clone();
                path.append("/");
                path.append(name);
                Step::Resolve(path)
            },
            None => Step::Reply(self.finish(req, None)),
        }
    }

    /// The step after the path was resolved to `canonical`, or could not be
    /// resolved. The file is read exactly when the request asks for a file
    /// and the canonical path lies within the served directory; a path
    /// outside it, whatever the request spelled, gets the answer for a
    /// missing file, and so does a path that did not resolve.
    pub fn resolved(&self, req: &Request, canonical: Option<String>) -> (step: Step)
        ensures
            match canonical {
                Some(path) => if path_within(path@, self.root()) && file_of(route(req@))
                    is Some {
                    step == Step::Read(path)
                } else {
                    step matches Step::Reply(response) && response@ == reply(req@, None)
                },
                None => step matches Step::Reply(response) && response@ == reply(req@, None),
            },
    {
        match canonical {
            Some(path) => {
                let inside = path_starts_with(path.as_str(), self.public_path.as_str());
                self.guard(req, path, inside)
            },
            None => Step::Reply(self.finish(req, None)),
        }
    }

    /// The step after the path was resolved to `canonical`, which lies
    /// `inside` the served directory or not. Outside, no file is read and
    /// the answer is the one for a missing file.
    pub fn guard(&self, req: &Request, canonical: String, inside: bool) -> (step: Step)
        ensures
            if inside && file_of(route(req@)) is Some {
                step == Step::Read(canonical)
            } else {
                step matches Step::Reply(response) && response@ == reply(req@, None)
            },
    {
        if inside && self.file_name(req).is_some() {
            Step::Read(canonical)
        } else {
            Step::Reply(self.finish(req, None))
        }
    }

    /// The answer to `req` once the file was read, or could not be read.
    pub fn finish(&self, req: &Request, content: Option<String>) -> (response: Response)
        ensures
            response@ == reply(
                req@,
                match content {
                    Some(text) => Some(text@),
                    None => None,
                },
            ),
    {
        if !text_eq(req.protocol(), "HTTP/1.1") {
            Response::new(StatusCode::HTTPVersionNotSupported, None)
        } else {
            match req.method() {
                Method::GET => {
                    let path = req.path();
                    if text_eq(path, "/") || text_eq(path, "/favicon.ico") {
                        Response::new(StatusCode::OK, content)
                    } else if text_eq(path, "/health") {
                        Response::new(StatusCode::OK, Some("OK".to_owned()))
                    } else {
                        match content {
                            Some(text) => Response::new(StatusCode::OK, Some(text)),
                            None => {
                                let mut message = path.to_owned();
                                message.append(" not found");
                                Response::new(StatusCode::NotFound, Some(message))
                            },
                        }
                    }
                },
                _ => Response::new(StatusCode::MethodNotAllowed, None),
            }
        }
    }
}

} // verus!
