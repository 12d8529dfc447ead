//! The status codes that the server answers with.

use vstd::prelude::*;

verus! {

/// A response status. Each has a number and a fixed reason phrase.
#[derive(Clone, Copy, Debug, PartialEq, Eq, Structural)]
pub enum StatusCode {
    OK,
    BadRequest,
    NotFound,
    MethodNotAllowed,
    InternalServerError,
    HTTPVersionNotSupported,
}

/// The character of a decimal digit.
pub open spec fn digit(d: nat) -> char
    recommends
        d < 10,
{
    "0123456789"@[d as int]
}

/// A number written in decimal, without leading zeros.
pub open spec fn decimal(n: nat) -> Seq<char>
    decreases n,
{
    if n < 10 {
        seq![digit(n)]
    } else {
        decimal(n / 10).push(digit(n % 10))
    }
}

impl StatusCode {
    /// The number of this status.
    pub open spec fn number(self) -> u16 {
        match self {
            StatusCode::OK => 200,
            StatusCode::BadRequest => 400,
            StatusCode::NotFound => 404,
            StatusCode::MethodNotAllowed => 405,
            StatusCode::InternalServerError => 500,
            StatusCode::HTTPVersionNotSupported => 505,
        }
    }

    /// The reason phrase of this status.
    pub open spec fn reason(self) -> Seq<char> {
        match self {
            StatusCode::OK => "OK"@,
            StatusCode::BadRequest => "Bad Request"@,
            StatusCode::NotFound => "Not Found"@,
            StatusCode::MethodNotAllowed => "Method Not Allowed"@,
            StatusCode::InternalServerError => "Internal Server Error"@,
            StatusCode::HTTPVersionNotSupported => "HTTP Version Not Supported"@,
        }
    }

    /// The number of this status.
    pub fn code(&self) -> (r: u16)
        ensures
            r == self.number(),
    {
        match self {
            StatusCode::OK => 200,
            StatusCode::BadRequest => 400,
            StatusCode::NotFound => 404,
            StatusCode::MethodNotAllowed => 405,
            StatusCode::InternalServerError => 500,
            StatusCode::HTTPVersionNotSupported => 505,
        }
    }

    /// The reason phrase of this status.
    pub fn reason_phrase(&self) -> (r: &'static str)
        ensures
            r@ == self.reason(),
    {
        match self {
            StatusCode::OK => "OK",
            StatusCode::BadRequest => "Bad Request",
            StatusCode::NotFound => "Not Found",
            StatusCode::MethodNotAllowed => "Method Not Allowed",
            StatusCode::InternalServerError => "Internal Server Error",
            StatusCode::HTTPVersionNotSupported => "HTTP Version Not Supported",
        }
    }

    /// The number of this status, written in decimal.
    pub fn code_str(&self) -> (r: &'static str)
        ensures
            r@ == decimal(self.number() as nat),
    {
        proof {
            reveal_strlit("0123456789");
            reveal_with_fuel(decimal, 3);
        }
        match self {
            StatusCode::OK => {
                proof {
                    reveal_strlit("200");
                    assert("200"@ =~= decimal(200));
                }
                "200"
            },
            StatusCode::BadRequest => {
                proof {
                    reveal_strlit("400");
                    assert("400"@ =~= decimal(400));
                }
                "400"
            },
            StatusCode::NotFound => {
                proof {
                    reveal_strlit("404");
                    assert("404"@ =~= decimal(404));
                }
                "404"
            },
            StatusCode::MethodNotAllowed => {
                proof {
                    reveal_strlit("405");
                    assert("405"@ =~= decimal(405));
                }
                "405"
            },
            StatusCode::InternalServerError => {
                proof {
                    reveal_strlit("500");
                    assert("500"@ =~= decimal(500));
                }
                "500"
            },
            StatusCode::HTTPVersionNotSupported => {
                proof {
                    reveal_strlit("505");
                    assert("505"@ =~= decimal(505));
                }
                "505"
            },
        }
    }

    /// The number of this status, written in decimal, as an owned text.
    pub fn to_string(&self) -> (r: String)
        ensures
            r@ == decimal(self.number() as nat),
    {
        self.code_str().to_owned()
    }
}

} // verus!
