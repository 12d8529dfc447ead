//! A request, read from the bytes of one receive buffer.
//!
//! Only the request line is read: method, target and protocol. What follows
//! the protocol token is left alone, so the header and body fields of a
//! [`Request`] are always empty.

use super::method::{Method, MethodError};
use super::query_string::{query_map, QueryString, ValueView};
use crate::text::{count_of, cut, first_of, free_of, lemma_cut_count, lemma_cut_joined, split_first};
use core::str::Utf8Error;
use vstd::prelude::*;
use vstd::std_specs::convert::{FromSpecImpl, TryFromSpecImpl};
use vstd::string::StringSliceAdditionalSpecFns;
use vstd::utf8::{
    decode_utf8, encode_utf8, encode_utf8_decode_utf8, encode_utf8_valid_utf8, valid_utf8,
};

verus! {

/// Why a buffer is not a request.
#[derive(Clone, Copy, Debug, PartialEq, Eq, Structural)]
pub enum ParseError {
    /// The request line has fewer than three tokens.
    InvalidRequest,
    /// The buffer is not UTF-8 text.
    InvalidEncoding,
    /// The first token is not a method.
    InvalidMethod,
}

impl ParseError {
    /// The words that describe this error.
    pub open spec fn message_text(self) -> Seq<char> {
        match self {
            ParseError::InvalidRequest => "Invalid Request"@,
            ParseError::InvalidEncoding => "Invalid Encoding"@,
            ParseError::InvalidMethod => "Invalid Method"@,
        }
    }

    /// The words that describe this error.
    pub fn message(&self) -> (r: &'static str)
        ensures
            r@ == self.message_text(),
    {
        match self {
            ParseError::InvalidRequest => "Invalid Request",
            ParseError::InvalidEncoding => "Invalid Encoding",
            ParseError::InvalidMethod => "Invalid Method",
        }
    }
}

impl From<Utf8Error> for ParseError {
    fn from(e: Utf8Error) -> (r: ParseError) {
        ParseError::InvalidEncoding
    }
}

impl FromSpecImpl<Utf8Error> for ParseError {
    open spec fn obeys_from_spec() -> bool {
        true
    }

    open spec fn from_spec(e: Utf8Error) -> ParseError {
        ParseError::InvalidEncoding
    }
}

impl From<MethodError> for ParseError {
    fn from(e: MethodError) -> (r: ParseError) {
        ParseError::InvalidMethod
    }
}

impl FromSpecImpl<MethodError> for ParseError {
    open spec fn obeys_from_spec() -> bool {
        true
    }

    open spec fn from_spec(e: MethodError) -> ParseError {
        ParseError::InvalidMethod
    }
}

/// The characters that end a token of the request line: space, carriage
/// return and line feed.
pub open spec fn separators() -> Seq<char> {
    " \r\n"@
}

/// The first token of `text` and what follows its separator. `None` when
/// `text` holds no separator: a token counts only once it has ended.
pub open spec fn next_word(text: Seq<char>) -> Option<(Seq<char>, Seq<char>)> {
    cut(text, separators())
}

/// A request target cut at its first `?`: the raw query string, if there is
/// a `?`, and the path before it.
pub open spec fn split_target(target: Seq<char>) -> (Option<Seq<char>>, Seq<char>) {
    match cut(target, "?"@) {
        Some((path, raw)) => (Some(raw), path),
        None => (None, target),
    }
}

/// The mathematical value of a [`Request`].
pub struct RequestView {
    pub method: Method,
    pub path: Seq<char>,
    pub query_string: Option<Map<Seq<char>, ValueView>>,
    pub protocol: Seq<char>,
    pub headers: Option<Seq<char>>,
    pub body: Option<Seq<char>>,
}

/// The request that a text stands for. Three tokens are taken from its
/// front, in the order method, target, protocol; the rest is not read.
pub open spec fn parse_text(text: Seq<char>) -> Result<RequestView, ParseError> {
    match next_word(text) {
        None => Err(ParseError::InvalidRequest),
        Some((method, rest)) => match next_word(rest) {
            None => Err(ParseError::InvalidRequest),
            Some((target, rest)) => match next_word(rest) {
                None => Err(ParseError::InvalidRequest),
                Some((protocol, _)) => match Method::from_token(method) {
                    None => Err(ParseError::InvalidMethod),
                    Some(method) => Ok(
                        RequestView {
                            method,
                            path: split_target(target).1,
                            query_string: match split_target(target).0 {
                                Some(raw) => Some(query_map(raw)),
                                None => None,
                            },
                            protocol,
                            headers: None,
                            body: None,
                        },
                    ),
                },
            },
        },
    }
}

/// The request that a buffer stands for: its bytes are decoded as UTF-8
/// before anything else is looked at.
pub open spec fn parse_bytes(bytes: Seq<u8>) -> Result<RequestView, ParseError> {
    if valid_utf8(bytes) {
        parse_text(decode_utf8(bytes))
    } else {
        Err(ParseError::InvalidEncoding)
    }
}

/// The target of a request line: the path alone, or the path, `?` and the
/// raw query string.
pub open spec fn target_of(path: Seq<char>, query: Option<Seq<char>>) -> Seq<char> {
    match query {
        Some(raw) => path + "?"@ + raw,
        None => path,
    }
}

/// A well-formed request line parses to its parts. The line is a method's
/// token, a path without `?`, a query string if there is one, and a protocol,
/// none of which holds a separator, with one separator after the method, one
/// after the target and one after the protocol. What follows the last
/// separator makes no difference, and headers and body stay empty.
pub proof fn lemma_parse_well_formed(
    method: Method,
    path: Seq<char>,
    query: Option<Seq<char>>,
    protocol: Seq<char>,
    after_method: char,
    after_target: char,
    after_protocol: char,
    rest: Seq<char>,
)
    requires
        free_of(path, separators()),
        free_of(path, "?"@),
        query matches Some(raw) ==> free_of(raw, separators()),
        free_of(protocol, separators()),
        separators().contains(after_method),
        separators().contains(after_target),
        separators().contains(after_protocol),
    ensures
        parse_text(
            method.token() + seq![after_method] + target_of(path, query) + seq![after_target]
                + protocol + seq![after_protocol] + rest,
        ) == Ok::<RequestView, ParseError>(
            RequestView {
                method,
                path,
                query_string: match query {
                    Some(raw) => Some(query_map(raw)),
                    None => None,
                },
                protocol,
                headers: None,
                body: None,
            },
        ),
{
    let target = target_of(path, query);
    let third = protocol + seq![after_protocol] + rest;
    let second = target + seq![after_target] + third;
    let text = method.token() + seq![after_method] + second;
    assert(text =~= method.token() + seq![after_method] + target + seq![after_target] + protocol
        + seq![after_protocol] + rest);
    assert(free_of(method.token(), separators())) by {
        lemma_token_free(method);
    }
    assert(free_of(target, separators())) by {
        reveal_strlit(" \r\n");
        reveal_strlit("?");
    }
    lemma_cut_joined(method.token(), after_method, second, separators());
    lemma_cut_joined(target, after_target, third, separators());
    lemma_cut_joined(protocol, after_protocol, rest, separators());
    crate::http::method::lemma_token_round_trip(method);
    reveal_strlit("?");
    match query {
        Some(raw) => {
            assert("?"@[0] == '?');
            assert("?"@ =~= seq!['?']);
            lemma_cut_joined(path, '?', raw, "?"@);
        },
        None => {
            lemma_cut_count(path, "?"@);
            crate::text::lemma_first_of(path, "?"@);
        },
    }
}

/// No token of a method holds a separator.
proof fn lemma_token_free(method: Method)
    ensures
        free_of(method.token(), separators()),
{
    reveal_strlit(" \r\n");
    reveal_strlit("GET");
    reveal_strlit("DELETE");
    reveal_strlit("POST");
    reveal_strlit("PUT");
    reveal_strlit("HEAD");
    reveal_strlit("CONNECT");
    reveal_strlit("OPTIONS");
    reveal_strlit("TRACE");
    reveal_strlit("PATCH");
}

/// Which error a text gets. It is `InvalidRequest` exactly when the text
/// holds fewer than three separators, so that three tokens cannot be taken
/// from it; it is `InvalidMethod` exactly when three tokens can be taken and
/// the first, the text before the first separator, is not a method's token.
/// A text never gets `InvalidEncoding`.
pub proof fn lemma_parse_errors(text: Seq<char>)
    ensures
        parse_text(text) == Err::<RequestView, ParseError>(ParseError::InvalidRequest)
            <==> count_of(text, separators()) < 3,
        parse_text(text) == Err::<RequestView, ParseError>(ParseError::InvalidMethod) <==> count_of(
            text,
            separators(),
        ) >= 3 && Method::from_token(text.subrange(0, first_of(text, separators()))) is None,
        parse_text(text) != Err::<RequestView, ParseError>(ParseError::InvalidEncoding),
{
    lemma_cut_count(text, separators());
    if let Some((_, rest)) = next_word(text) {
        lemma_cut_count(rest, separators());
        if let Some((_, rest)) = next_word(rest) {
            lemma_cut_count(rest, separators());
        }
    }
}

/// Which buffers are refused for their encoding: those that are not UTF-8,
/// and no others. The bytes of a text are read as that text.
pub proof fn lemma_parse_encoding(bytes: Seq<u8>, text: Seq<char>)
    ensures
        parse_bytes(bytes) == Err::<RequestView, ParseError>(ParseError::InvalidEncoding)
            <==> !valid_utf8(bytes),
        parse_bytes(encode_utf8(text)) == parse_text(text),
{
    if valid_utf8(bytes) {
        lemma_parse_errors(decode_utf8(bytes));
    }
    encode_utf8_valid_utf8(text);
    encode_utf8_decode_utf8(text);
}

/// Takes the first token off `req`: the text before the first space,
/// carriage return or line feed, and the text after that character.
pub fn get_next_word(req: &str) -> (r: Option<(&str, &str)>)
    ensures
        match r {
            Some((word, rest)) => next_word(req@) == Some((word@, rest@)),
            None => next_word(req@) is None,
        },
{
    proof {
        reveal_strlit(" \r\n");
    }
    split_first(req, " \r\n")
}

/// Parts a request target into its query string, if it has one, and its
/// path.
pub fn parse_query_string(path: &str) -> (r: (Option<QueryString>, &str))
    ensures
        r.1@ == split_target(path@).1,
        match r.0 {
            Some(query) => split_target(path@).0 matches Some(raw) && query@ == query_map(raw),
            None => split_target(path@).0 is None,
        },
{
    proof {
        reveal_strlit("?");
    }
    match split_first(path, "?") {
        Some((path, raw)) => (Some(QueryString::build(raw)), path),
        None => (None, path),
    }
}

/// The parts of a request that are kept for later. Nothing reads the header
/// block or the body of a buffer yet, so both are always absent.
#[derive(Debug)]
struct Unparsed<'buf> {
    headers: Option<&'buf str>,
    body: Option<&'buf str>,
}

impl<'buf> Unparsed<'buf> {
    #[verifier::type_invariant]
    spec fn inv(&self) -> bool {
        self.headers is None && self.body is None
    }
}

/// A parsed request. Its texts borrow from the buffer it was parsed from.
#[derive(Debug)]
pub struct Request<'buf> {
    pub method: Method,
    pub path: &'buf str,
    query_string: Option<QueryString<'buf>>,
    protocol: &'buf str,
    unparsed: Unparsed<'buf>,
}

impl<'buf> View for Request<'buf> {
    type V = RequestView;

    closed spec fn view(&self) -> RequestView {
        RequestView {
            method: self.method,
            path: self.path@,
            query_string: match self.query_string {
                Some(query) => Some(query@),
                None => None,
            },
            protocol: self.protocol@,
            headers: match self.unparsed.headers {
                Some(text) => Some(text@),
                None => None,
            },
            body: match self.unparsed.body {
                Some(text) => Some(text@),
                None => None,
            },
        }
    }
}

impl<'buf> Request<'buf> {
    /// Reads a request from a receive buffer. The whole buffer is taken as
    /// one text; the request line is read off its front.
    pub fn parse(buf: &'buf [u8]) -> (r: Result<Request<'buf>, ParseError>)
        ensures
            match r {
                Ok(request) => parse_bytes(buf@) == Ok::<RequestView, ParseError>(request@),
                Err(e) => parse_bytes(buf@) == Err::<RequestView, ParseError>(e),
            },
            !valid_utf8(buf@) ==> r matches Err(ParseError::InvalidEncoding),
            r matches Ok(request) ==> request@.headers is None && request@.body is None,
    {
        let req = match core::str::from_utf8(buf) {
            Ok(text) => text,
            Err(e) => {
                return Err(ParseError::from(e));
            },
        };
        proof {
            encode_utf8_decode_utf8(req@);
        }
        let (method, req) = match get_next_word(req) {
            Some(found) => found,
            None => {
                return Err(ParseError::InvalidRequest);
            },
        };
        let (path, req) = match get_next_word(req) {
            Some(found) => found,
            None => {
                return Err(ParseError::InvalidRequest);
            },
        };
        let (protocol, _) = match get_next_word(req) {
            Some(found) => found,
            None => {
                return Err(ParseError::InvalidRequest);
            },
        };
        let method = match Method::parse(method) {
            Ok(method) => method,
            Err(e) => {
                return Err(ParseError::from(e));
            },
        };
        let (query_string, path) = parse_query_string(path);
        Ok(
            Request {
                path,
                query_string,
                method,
                protocol,
                unparsed: Unparsed { headers: None, body: None },
            },
        )
    }

    /// The method of the request.
    pub fn method(&self) -> (r: &Method)
        ensures
            *r == self@.method,
    {
        &self.method
    }

    /// The path of the request target, without its query string.
    pub fn path(&self) -> (r: &'buf str)
        ensures
            r@ == self@.path,
    {
        self.path
    }

    /// The query string of the request target, if it has one.
    pub fn query_string(&self) -> (r: Option<&QueryString<'buf>>)
        ensures
            match r {
                Some(query) => self@.query_string == Some(query@),
                None => self@.query_string is None,
            },
    {
        self.query_string.as_ref()
    }

    /// The protocol token, as the request line gives it.
    pub fn protocol(&self) -> (r: &'buf str)
        ensures
            r@ == self@.protocol,
    {
        self.protocol
    }

    /// The header block. It is not parsed, so there is none.
    pub fn headers(&self) -> (r: Option<&'buf str>)
        ensures
            r is None,
            self@.headers is None,
    {
        proof {
            use_type_invariant(&self.unparsed);
        }
        self.unparsed.headers
    }

    /// The body. It is not parsed, so there is none.
    pub fn body(&self) -> (r: Option<&'buf str>)
        ensures
            r is None,
            self@.body is None,
    {
        proof {
            use_type_invariant(&self.unparsed);
        }
        self.unparsed.body
    }
}

impl<'buf> TryFrom<&'buf [u8]> for Request<'buf> {
    type Error = ParseError;

    /// The same as [`Request::parse`].
    fn try_from(buf: &'buf [u8]) -> (r: Result<Request<'buf>, ParseError>)
        ensures
            match r {
                Ok(request) => parse_bytes(buf@) == Ok::<RequestView, ParseError>(request@),
                Err(e) => parse_bytes(buf@) == Err::<RequestView, ParseError>(e),
            },
    {
        Request::parse(buf)
    }
}

impl<'buf> TryFromSpecImpl<&'buf [u8]> for Request<'buf> {
    /// A request is known by its view, so the conversion is specified by the
    /// `ensures` of `try_from` and not by a value of `Request`.
    open spec fn obeys_try_from_spec() -> bool {
        false
    }

    open spec fn try_from_spec(buf: &'buf [u8]) -> Result<Request<'buf>, ParseError> {
        arbitrary()
    }
}

} // verus!
