//! The handler contract, and what the server does with one receive buffer.

use crate::http::request::{parse_bytes, ParseError, Request, RequestView};
use crate::http::response::{plain, Response, ResponseView};
use crate::http::status_code::StatusCode;
use vstd::prelude::*;

verus! {

/// How many bytes are read from a connection. A request that does not fit is
/// cut off there.
pub const BUFFER_SIZE: usize = 8192;

/// The answer to every buffer that is not a request: status 400, no headers,
/// no body.
pub open spec fn bad_request() -> ResponseView {
    plain(StatusCode::BadRequest, None)
}

/// Something that turns a request into a response.
pub trait Handler {
    /// Whether `response` is an answer that this handler may give to
    /// `request`. An implementation states here what it promises; one that
    /// says nothing promises nothing.
    open spec fn answers(&self, request: RequestView, response: ResponseView) -> bool {
        true
    }

    /// Answers a request.
    fn handle_request(&self, req: &Request) -> (response: Response)
        ensures
            self.answers(req@, response@),
    ;

    /// Answers a buffer that is not a request. The answer is the same for
    /// every handler and every error.
    fn handle_bad_request(&self, e: &ParseError) -> (response: Response)
        ensures
            response@ == bad_request(),
    {
        Response::new(StatusCode::BadRequest, None)
    }
}

/// A server and the address it listens on.
#[derive(Debug)]
pub struct Server {
    addr: String,
}

impl Server {
    /// The address, as text.
    pub closed spec fn address(&self) -> Seq<char> {
        self.addr@
    }

    /// A server for the address `addr`.
    pub fn new(addr: String) -> (r: Server)
        ensures
            r.address() == addr@,
    {
        Server { addr }
    }

    /// The address to listen on.
    pub fn addr(&self) -> (r: &str)
        ensures
            r@ == self.address(),
    {
        self.addr.as_str()
    }

    /// Answers one receive buffer: a buffer that parses goes to the handler
    /// as a request, any other gets the handler's answer to a bad request.
    pub fn respond<H: Handler>(&self, handler: &H, buf: &[u8]) -> (response: Response)
        ensures
            match parse_bytes(buf@) {
                Ok(request) => handler.answers(request, response@),
                Err(_) => response@ == bad_request(),
            },
    {
        match Request::parse(buf) {
            Ok(req) => handler.handle_request(&req),
            Err(e) => handler.handle_bad_request(&e),
        }
    }
}

} // verus!
