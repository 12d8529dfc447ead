//! A minimal HTTP/1.1 request parser, response serializer and handler
//! dispatch, with every function proved against its contract.

pub mod http;
pub mod server;
pub mod text;
