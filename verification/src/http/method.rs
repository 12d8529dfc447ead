//! The closed set of request methods.

use crate::text::text_eq;
use vstd::prelude::*;

verus! {

/// A request method. The set is closed: any other token is rejected.
#[derive(Clone, Copy, Debug, PartialEq, Eq, Structural)]
pub enum Method {
    GET,
    DELETE,
    POST,
    PUT,
    HEAD,
    CONNECT,
    OPTIONS,
    TRACE,
    PATCH,
}

/// Why a token is not a method.
#[derive(Clone, Copy, Debug, PartialEq, Eq, Structural)]
pub enum MethodError {
    /// The token matches no member of the method set.
    UnsupportedMethod,
}

impl Method {
    /// The token that names this method on the wire.
    pub open spec fn token(self) -> Seq<char> {
        match self {
            Method::GET => "GET"@,
            Method::DELETE => "DELETE"@,
            Method::POST => "POST"@,
            Method::PUT => "PUT"@,
            Method::HEAD => "HEAD"@,
            Method::CONNECT => "CONNECT"@,
            Method::OPTIONS => "OPTIONS"@,
            Method::TRACE => "TRACE"@,
            Method::PATCH => "PATCH"@,
        }
    }

    /// The method that `text` names, if any. The match is exact: case counts
    /// and nothing is trimmed.
    pub open spec fn from_token(text: Seq<char>) -> Option<Method> {
        if text == "GET"@ {
            Some(Method::GET)
        } else if text == "DELETE"@ {
            Some(Method::DELETE)
        } else if text == "POST"@ {
            Some(Method::POST)
        } else if text == "PUT"@ {
            Some(Method::PUT)
        } else if text == "HEAD"@ {
            Some(Method::HEAD)
        } else if text == "CONNECT"@ {
            Some(Method::CONNECT)
        } else if text == "OPTIONS"@ {
            Some(Method::OPTIONS)
        } else if text == "TRACE"@ {
            Some(Method::TRACE)
        } else if text == "PATCH"@ {
            Some(Method::PATCH)
        } else {
            None
        }
    }

    /// Reads a method from an already isolated token.
    pub fn parse(text: &str) -> (r: Result<Method, MethodError>)
        ensures
            r == match Method::from_token(text@) {
                Some(m) => Ok::<Method, MethodError>(m),
                None => Err(MethodError::UnsupportedMethod),
            },
    {
        if text_eq(text, "GET") {
            Ok(Method::GET)
        } else if text_eq(text, "DELETE") {
            Ok(Method::DELETE)
        } else if text_eq(text, "POST") {
            Ok(Method::POST)
        } else if text_eq(text, "PUT") {
            Ok(Method::PUT)
        } else if text_eq(text, "HEAD") {
            Ok(Method::HEAD)
        } else if text_eq(text, "CONNECT") {
            Ok(Method::CONNECT)
        } else if text_eq(text, "OPTIONS") {
            Ok(Method::OPTIONS)
        } else if text_eq(text, "TRACE") {
            Ok(Method::TRACE)
        } else if text_eq(text, "PATCH") {
            Ok(Method::PATCH)
        } else {
            Err(MethodError::UnsupportedMethod)
        }
    }

    /// The token of this method.
    pub fn as_str(&self) -> (r: &'static str)
        ensures
            r@ == self.token(),
    {
        match self {
            Method::GET => "GET",
            Method::DELETE => "DELETE",
            Method::POST => "POST",
            Method::PUT => "PUT",
            Method::HEAD => "HEAD",
            Method::CONNECT => "CONNECT",
            Method::OPTIONS => "OPTIONS",
            Method::TRACE => "TRACE",
            Method::PATCH => "PATCH",
        }
    }
}

impl core::str::FromStr for Method {
    type Err = MethodError;

    /// The same as [`Method::parse`]: the method that `s` names, or
    /// `UnsupportedMethod` when it names none.
    fn from_str(s: &str) -> (r: Result<Method, MethodError>)
        ensures
            r == match Method::from_token(s@) {
                Some(m) => Ok::<Method, MethodError>(m),
                None => Err(MethodError::UnsupportedMethod),
            },
    {
        Method::parse(s)
    }
}

/// The token of a method names that method and no other.
pub proof fn lemma_token_round_trip(m: Method)
    ensures
        Method::from_token(m.token()) == Some(m),
{
    reveal_strlit("GET");
    reveal_strlit("DELETE");
    reveal_strlit("POST");
    reveal_strlit("PUT");
    reveal_strlit("HEAD");
    reveal_strlit("CONNECT");
    reveal_strlit("OPTIONS");
    reveal_strlit("TRACE");
    reveal_strlit("PATCH");
    assert("GET"@.len() == 3 && "GET"@[0] == 'G');
    assert("DELETE"@.len() == 6);
    assert("POST"@.len() == 4 && "POST"@[0] == 'P');
    assert("PUT"@.len() == 3 && "PUT"@[0] == 'P');
    assert("HEAD"@.len() == 4 && "HEAD"@[0] == 'H');
    assert("CONNECT"@.len() == 7 && "CONNECT"@[0] == 'C');
    assert("OPTIONS"@.len() == 7 && "OPTIONS"@[0] == 'O');
    assert("TRACE"@.len() == 5 && "TRACE"@[0] == 'T');
    assert("PATCH"@.len() == 5 && "PATCH"@[0] == 'P');
}

} // verus!
