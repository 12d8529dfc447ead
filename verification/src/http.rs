//! Request parsing and response serialization.

pub mod method;
pub mod query_string;
pub mod request;
pub mod request_handler;
pub mod response;
pub mod status_code;

pub use method::{Method, MethodError};
pub use query_string::{QueryString, Value as QueryStringValue};
pub use request::{ParseError, Request};
pub use request_handler::RequestHandler;
pub use response::Response;
pub use status_code::StatusCode;
