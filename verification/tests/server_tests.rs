use http_server::http::{ParseError, Request, Response, StatusCode};
use http_server::server::{Handler, Server, BUFFER_SIZE};

/// Answers every request with its path as the body.
struct Echo;

impl Handler for Echo {
    fn handle_request(&self, req: &Request) -> Response {
        Response::new(StatusCode::OK, Some(req.path().to_string()))
    }
}

fn wire(response: &Response) -> Vec<u8> {
    let mut out = Vec::new();
    response.send(&mut out);
    out
}

#[test]
fn server_keeps_its_address() {
    let server = Server::new("127.0.0.1:8080".to_string());
    assert_eq!(server.addr(), "127.0.0.1:8080");
}

#[test]
fn receive_buffer_has_its_fixed_size() {
    assert_eq!(BUFFER_SIZE, 8192);
}

#[test]
fn request_goes_to_the_handler() {
    let server = Server::new("127.0.0.1:0".to_string());
    let response = server.respond(&Echo, b"GET /hello?x=1 HTTP/1.1\r\n\r\n");
    assert_eq!(response.status_code(), StatusCode::OK);
    assert_eq!(response.body(), Some("/hello"));
}

#[test]
fn bad_buffers_get_a_bad_request() {
    let server = Server::new("127.0.0.1:0".to_string());
    for buf in [&b""[..], b"GET /", b"NOPE / HTTP/1.1\r\n", &[0xff, 0xff, b' ', b' ', b' ']] {
        let response = server.respond(&Echo, buf);
        assert_eq!(response.status_code(), StatusCode::BadRequest);
        assert_eq!(response.headers(), None);
        assert_eq!(response.body(), None);
        assert_eq!(wire(&response), b"HTTP/1.1 400 Bad Request\r\n\r\n\r\n\r\n".to_vec());
    }
}

#[test]
fn bad_request_answer_is_the_same_for_every_error() {
    for e in [ParseError::InvalidRequest, ParseError::InvalidEncoding, ParseError::InvalidMethod] {
        let response = Echo.handle_bad_request(&e);
        assert_eq!(response.status_code(), StatusCode::BadRequest);
        assert_eq!(response.headers(), None);
        assert_eq!(response.body(), None);
    }
}

#[test]
fn padded_buffer_goes_to_the_handler() {
    let server = Server::new("127.0.0.1:0".to_string());
    let mut buf = [0u8; BUFFER_SIZE];
    let line = b"GET /padded HTTP/1.1\r\n\r\n";
    buf[..line.len()].copy_from_slice(line);
    let response = server.respond(&Echo, &buf);
    assert_eq!(response.body(), Some("/padded"));
}
