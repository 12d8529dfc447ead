use http_server::http::request_handler::Step;
use http_server::http::{Request, RequestHandler, Response, StatusCode};

fn handler() -> RequestHandler {
    RequestHandler::new("/srv/public".to_string())
}

fn wire(response: &Response) -> Vec<u8> {
    let mut out = Vec::new();
    response.send(&mut out);
    out
}

fn expect_reply(step: Step) -> Response {
    match step {
        Step::Reply(response) => response,
        other => panic!("{:?} is no reply", other),
    }
}

fn expect_resolve(step: Step) -> String {
    match step {
        Step::Resolve(path) => path,
        other => panic!("{:?} asks for no path", other),
    }
}

fn expect_read(step: Step) -> String {
    match step {
        Step::Read(path) => path,
        other => panic!("{:?} asks for no file", other),
    }
}

#[test]
fn handler_keeps_its_directory() {
    assert_eq!(handler().public_path(), "/srv/public");
}

#[test]
fn health_is_answered_without_a_file() {
    let request = Request::parse(b"GET /health HTTP/1.1\r\n\r\n").unwrap();
    let response = expect_reply(handler().begin(&request));
    assert_eq!(response.status_code(), StatusCode::OK);
    assert_eq!(response.body(), Some("OK"));
    assert_eq!(response.headers(), None);
}

#[test]
fn health_end_to_end() {
    let request = Request::parse(b"GET /health HTTP/1.1\r\n\r\n").unwrap();
    let response = expect_reply(handler().begin(&request));
    assert_eq!(wire(&response), b"HTTP/1.1 200 OK\r\n\r\n\r\nOK\r\n".to_vec());
}

#[test]
fn root_path_asks_for_the_index_page() {
    let request = Request::parse(b"GET / HTTP/1.1\r\n").unwrap();
    assert_eq!(expect_resolve(handler().begin(&request)), "/srv/public/index.html");
}

#[test]
fn favicon_has_its_own_file() {
    let request = Request::parse(b"GET /favicon.ico HTTP/1.1\r\n").unwrap();
    assert_eq!(expect_resolve(handler().begin(&request)), "/srv/public/favicon.ico");
}

#[test]
fn other_paths_are_looked_up_under_the_directory() {
    let request = Request::parse(b"GET /css/site.css?v=2 HTTP/1.1\r\n").unwrap();
    assert_eq!(expect_resolve(handler().begin(&request)), "/srv/public//css/site.css");
    let request = Request::parse(b"GET /../secret HTTP/1.1\r\n").unwrap();
    assert_eq!(expect_resolve(handler().begin(&request)), "/srv/public//../secret");
}

#[test]
fn other_protocols_are_not_supported() {
    for line in [&b"GET / HTTP/1.0\r\n"[..], b"GET /health HTTP/2\r\n", b"POST /x http/1.1\r\n"] {
        let request = Request::parse(line).unwrap();
        let response = expect_reply(handler().begin(&request));
        assert_eq!(response.status_code(), StatusCode::HTTPVersionNotSupported);
        assert_eq!(response.body(), None);
    }
}

#[test]
fn other_methods_are_not_allowed() {
    for method in ["DELETE", "POST", "PUT", "HEAD", "CONNECT", "OPTIONS", "TRACE", "PATCH"] {
        let line = format!("{} /health HTTP/1.1\r\n", method);
        let request = Request::parse(line.as_bytes()).unwrap();
        let response = expect_reply(handler().begin(&request));
        assert_eq!(response.status_code(), StatusCode::MethodNotAllowed);
        assert_eq!(response.body(), None);
    }
}

#[test]
fn protocol_is_looked_at_before_the_method() {
    let request = Request::parse(b"POST / HTTP/1.0\r\n").unwrap();
    let response = expect_reply(handler().begin(&request));
    assert_eq!(response.status_code(), StatusCode::HTTPVersionNotSupported);
}

#[test]
fn path_inside_the_directory_is_read() {
    let request = Request::parse(b"GET /a.txt HTTP/1.1\r\n").unwrap();
    let step = handler().resolved(&request, Some("/srv/public/a.txt".to_string()));
    assert_eq!(expect_read(step), "/srv/public/a.txt");
    let step = handler().resolved(&request, Some("/srv/public".to_string()));
    assert_eq!(expect_read(step), "/srv/public");
}

#[test]
fn path_outside_the_directory_is_not_read() {
    let request = Request::parse(b"GET /../../etc/passwd HTTP/1.1\r\n").unwrap();
    let step = handler().resolved(&request, Some("/etc/passwd".to_string()));
    let response = expect_reply(step);
    assert_eq!(response.status_code(), StatusCode::NotFound);
    assert_eq!(response.body(), Some("/../../etc/passwd not found"));
}

#[test]
fn containment_goes_by_components_not_by_characters() {
    let request = Request::parse(b"GET /x HTTP/1.1\r\n").unwrap();
    let step = handler().resolved(&request, Some("/srv/publicity/x".to_string()));
    let response = expect_reply(step);
    assert_eq!(response.status_code(), StatusCode::NotFound);
    assert_eq!(response.body(), Some("/x not found"));
    let step = handler().resolved(&request, Some("/srv".to_string()));
    assert_eq!(expect_reply(step).status_code(), StatusCode::NotFound);
}

#[test]
fn index_page_outside_the_directory_is_an_empty_ok() {
    let request = Request::parse(b"GET / HTTP/1.1\r\n").unwrap();
    let step = handler().resolved(&request, Some("/elsewhere/index.html".to_string()));
    let response = expect_reply(step);
    assert_eq!(response.status_code(), StatusCode::OK);
    assert_eq!(response.body(), None);
}

#[test]
fn path_that_does_not_resolve_is_not_read() {
    let request = Request::parse(b"GET /missing HTTP/1.1\r\n").unwrap();
    let response = expect_reply(handler().resolved(&request, None));
    assert_eq!(response.status_code(), StatusCode::NotFound);
    assert_eq!(response.body(), Some("/missing not found"));
    let request = Request::parse(b"GET /favicon.ico HTTP/1.1\r\n").unwrap();
    let response = expect_reply(handler().resolved(&request, None));
    assert_eq!(response.status_code(), StatusCode::OK);
    assert_eq!(response.body(), None);
}

#[test]
fn guard_reads_only_inside() {
    let request = Request::parse(b"GET /a HTTP/1.1\r\n").unwrap();
    let step = handler().guard(&request, "/anything".to_string(), true);
    assert_eq!(expect_read(step), "/anything");
    let step = handler().guard(&request, "/srv/public/a".to_string(), false);
    let response = expect_reply(step);
    assert_eq!(response.status_code(), StatusCode::NotFound);
    assert_eq!(response.body(), Some("/a not found"));
}

#[test]
fn guard_reads_nothing_for_a_request_without_a_file() {
    let request = Request::parse(b"GET /health HTTP/1.1\r\n").unwrap();
    let step = handler().guard(&request, "/srv/public/health".to_string(), true);
    let response = expect_reply(step);
    assert_eq!(response.status_code(), StatusCode::OK);
    assert_eq!(response.body(), Some("OK"));
    let request = Request::parse(b"POST /a HTTP/1.1\r\n").unwrap();
    let step = handler().resolved(&request, Some("/srv/public/a".to_string()));
    assert_eq!(expect_reply(step).status_code(), StatusCode::MethodNotAllowed);
}

#[test]
fn file_content_becomes_the_body() {
    let request = Request::parse(b"GET /a.txt HTTP/1.1\r\n").unwrap();
    let response = handler().finish(&request, Some("hello".to_string()));
    assert_eq!(response.status_code(), StatusCode::OK);
    assert_eq!(response.body(), Some("hello"));
    let request = Request::parse(b"GET / HTTP/1.1\r\n").unwrap();
    let response = handler().finish(&request, Some("<html></html>".to_string()));
    assert_eq!(response.status_code(), StatusCode::OK);
    assert_eq!(response.body(), Some("<html></html>"));
}

#[test]
fn unreadable_file_is_not_found() {
    let request = Request::parse(b"GET /a.txt?x=1 HTTP/1.1\r\n").unwrap();
    let response = handler().finish(&request, None);
    assert_eq!(response.status_code(), StatusCode::NotFound);
    assert_eq!(response.body(), Some("/a.txt not found"));
    assert_eq!(
        wire(&response),
        b"HTTP/1.1 404 Not Found\r\n\r\n\r\n/a.txt not found\r\n".to_vec()
    );
}

#[test]
fn unreadable_page_is_an_empty_ok() {
    let request = Request::parse(b"GET / HTTP/1.1\r\n").unwrap();
    let response = handler().finish(&request, None);
    assert_eq!(response.status_code(), StatusCode::OK);
    assert_eq!(response.body(), None);
}

#[test]
fn finish_ignores_content_where_no_file_was_asked_for() {
    let request = Request::parse(b"GET /health HTTP/1.1\r\n").unwrap();
    let response = handler().finish(&request, Some("ignored".to_string()));
    assert_eq!(response.body(), Some("OK"));
    let request = Request::parse(b"GET /a HTTP/0.9\r\n").unwrap();
    let response = handler().finish(&request, Some("ignored".to_string()));
    assert_eq!(response.status_code(), StatusCode::HTTPVersionNotSupported);
    assert_eq!(response.body(), None);
}
