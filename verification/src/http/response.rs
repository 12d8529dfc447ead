//! A response and its form on the wire.

use super::status_code::{decimal, StatusCode};
use vstd::prelude::*;
use vstd::utf8::encode_utf8;

verus! {

/// A status with optional raw header text and an optional body.
#[derive(Debug)]
pub struct Response {
    status_code: StatusCode,
    headers: Option<String>,
    body: Option<String>,
}

/// The mathematical value of a [`Response`].
pub struct ResponseView {
    pub status_code: StatusCode,
    pub headers: Option<Seq<char>>,
    pub body: Option<Seq<char>>,
}

/// A response without headers.
pub open spec fn plain(status_code: StatusCode, body: Option<Seq<char>>) -> ResponseView {
    ResponseView { status_code, headers: None, body }
}

/// The text of an optional part: nothing when the part is absent.
pub open spec fn text_or_empty(part: Option<Seq<char>>) -> Seq<char> {
    match part {
        Some(text) => text,
        None => Seq::empty(),
    }
}

/// A response as text on the wire: the status line, the header text, a blank
/// line, the body, and a line end. The blank line and the last line end are
/// there whether or not there are headers or a body.
pub open spec fn wire_text(response: ResponseView) -> Seq<char> {
    "HTTP/1.1 "@ + decimal(response.status_code.number() as nat) + " "@
        + response.status_code.reason() + "\r\n"@ + text_or_empty(response.headers) + "\r\n\r\n"@
        + text_or_empty(response.body) + "\r\n"@
}

/// A response as bytes on the wire.
pub open spec fn wire_bytes(response: ResponseView) -> Seq<u8> {
    encode_utf8(wire_text(response))
}

/// The encoding of two texts joined is the two encodings joined.
pub proof fn lemma_encode_concat(a: Seq<char>, b: Seq<char>)
    ensures
        encode_utf8(a + b) == encode_utf8(a) + encode_utf8(b),
    decreases a.len(),
{
    if a.len() == 0 {
        assert(a + b =~= b);
        assert(encode_utf8(a) + encode_utf8(b) =~= encode_utf8(b));
    } else {
        lemma_encode_concat(a.drop_first(), b);
        assert((a + b).drop_first() =~= a.drop_first() + b);
        assert(encode_utf8(a + b) =~= encode_utf8(a) + encode_utf8(b));
    }
}

/// Appends the bytes of `text` to `out`, which holds `start` and then the
/// encoding of `written`.
fn push_text(
    out: &mut Vec<u8>,
    text: &str,
    Ghost(start): Ghost<Seq<u8>>,
    Ghost(written): Ghost<Seq<char>>,
)
    requires
        old(out)@ == start + encode_utf8(written),
    ensures
        final(out)@ == start + encode_utf8(written + text@),
{
    out.extend_from_slice(text.as_bytes());
    proof {
        lemma_encode_concat(written, text@);
        assert(out@ =~= start + encode_utf8(written + text@));
    }
}

impl View for Response {
    type V = ResponseView;

    closed spec fn view(&self) -> ResponseView {
        ResponseView {
            status_code: self.status_code,
            headers: match self.headers {
                Some(text) => Some(text@),
                None => None,
            },
            body: match self.body {
                Some(text) => Some(text@),
                None => None,
            },
        }
    }
}

impl Response {
    /// A response with the given status and body, and no headers.
    pub fn new(status_code: StatusCode, body: Option<String>) -> (r: Response)
        ensures
            r@ == plain(
                status_code,
                match body {
                    Some(text) => Some(text@),
                    None => None,
                },
            ),
    {
        Response { status_code, body, headers: None }
    }

    /// The status of the response.
    pub fn status_code(&self) -> (r: StatusCode)
        ensures
            r == self@.status_code,
    {
        self.status_code
    }

    /// The raw header text, if there is any.
    pub fn headers(&self) -> (r: Option<&str>)
        ensures
            match r {
                Some(text) => self@.headers == Some(text@),
                None => self@.headers is None,
            },
    {
        match &self.headers {
            Some(text) => Some(text.as_str()),
            None => None,
        }
    }

    /// The body, if there is one.
    pub fn body(&self) -> (r: Option<&str>)
        ensures
            match r {
                Some(text) => self@.body == Some(text@),
                None => self@.body is None,
            },
    {
        match &self.body {
            Some(text) => Some(text.as_str()),
            None => None,
        }
    }

    /// Writes the response to `stream` in its wire form, after what the
    /// stream already holds.
    pub fn send(&self, stream: &mut Vec<u8>)
        ensures
            final(stream)@ == old(stream)@ + wire_bytes(self@),
    {
        let headers = match &self.headers {
            Some(h) => h.as_str(),
            None => "",
        };
        let body = match &self.body {
            Some(b) => b.as_str(),
            None => "",
        };
        proof {
            reveal_strlit("");
            assert(headers@ =~= text_or_empty(self@.headers));
            assert(body@ =~= text_or_empty(self@.body));
        }
        let ghost start = stream@;
        let ghost line = Seq::<char>::empty();
        proof {
            assert(stream@ =~= start + encode_utf8(line));
        }
        push_text(stream, "HTTP/1.1 ", Ghost(start), Ghost(line));
        proof {
            assert(line + "HTTP/1.1 "@ =~= "HTTP/1.1 "@);
        }
        let ghost line = "HTTP/1.1 "@;
        push_text(stream, self.status_code.code_str(), Ghost(start), Ghost(line));
        let ghost line = line + decimal(self@.status_code.number() as nat);
        push_text(stream, " ", Ghost(start), Ghost(line));
        let ghost line = line + " "@;
        push_text(stream, self.status_code.reason_phrase(), Ghost(start), Ghost(line));
        let ghost line = line + self@.status_code.reason();
        push_text(stream, "\r\n", Ghost(start), Ghost(line));
        let ghost line = line + "\r\n"@;
        push_text(stream, headers, Ghost(start), Ghost(line));
        let ghost line = line + text_or_empty(self@.headers);
        push_text(stream, "\r\n\r\n", Ghost(start), Ghost(line));
        let ghost line = line + "\r\n\r\n"@;
        push_text(stream, body, Ghost(start), Ghost(line));
        let ghost line = line + text_or_empty(self@.body);
        push_text(stream, "\r\n", Ghost(start), Ghost(line));
    }
}

} // verus!
