use hello_pipeline::handler::{
    bytes_equal, handle, hello, recover, route, single_segment, InternalFailure, Route,
};
use hello_pipeline::headers::Headers;
use hello_pipeline::message::{Method, Request, Response};

fn request(method: Method, path: &[u8]) -> Request {
    Request { method, path: path.to_vec(), headers: Headers::new(), body: Vec::new() }
}

#[test]
fn hello_prefixes_the_name() {
    assert_eq!(hello(b"alice"), b"hello alice".to_vec());
    assert_eq!(hello(b""), b"hello ".to_vec());
}

#[test]
fn hello_keeps_escapes_as_received() {
    assert_eq!(hello(b"a%20b"), b"hello a%20b".to_vec());
}

#[test]
fn single_segment_needs_a_slash_and_a_name() {
    assert!(single_segment(b"/alice"));
    assert!(single_segment(b"/a"));
    assert!(!single_segment(b"/"));
    assert!(!single_segment(b""));
    assert!(!single_segment(b"alice"));
    assert!(!single_segment(b"/alice/"));
    assert!(!single_segment(b"/a/b"));
}

#[test]
fn bytes_equal_compares_every_byte() {
    assert!(bytes_equal(b"abc", b"abc"));
    assert!(!bytes_equal(b"abc", b"abd"));
    assert!(!bytes_equal(b"abc", b"ab"));
    assert!(bytes_equal(b"", b""));
}

#[test]
fn route_tells_the_three_kinds_apart() {
    assert!(matches!(route(b"/bob"), Route::Greeting(name) if name == b"bob".to_vec()));
    assert!(matches!(route(b"/debug/error"), Route::Diagnostic));
    assert!(matches!(route(b"/debug"), Route::Greeting(name) if name == b"debug".to_vec()));
    assert!(matches!(route(b"/debug/other"), Route::Unmatched));
    assert!(matches!(route(b"/"), Route::Unmatched));
    assert!(matches!(route(b""), Route::Unmatched));
}

#[test]
fn handle_greets_on_get() {
    let resp = handle(&request(Method::Get, b"/alice")).unwrap();
    assert_eq!(resp.status, 200);
    assert_eq!(resp.body, b"hello alice".to_vec());
    assert_eq!(resp.headers.len(), 0);
    assert!(resp.sized);
}

#[test]
fn handle_fails_on_the_diagnostic_path() {
    let outcome = handle(&request(Method::Get, b"/debug/error"));
    assert!(matches!(outcome, Err(InternalFailure)));
}

#[test]
fn handle_answers_404_for_unknown_paths() {
    let resp = handle(&request(Method::Get, b"/a/b/c")).unwrap();
    assert_eq!(resp.status, 404);
    assert!(resp.body.is_empty());
    let resp = handle(&request(Method::Post, b"/")).unwrap();
    assert_eq!(resp.status, 404);
}

#[test]
fn handle_answers_405_for_other_methods() {
    let resp = handle(&request(Method::Post, b"/alice")).unwrap();
    assert_eq!(resp.status, 405);
    assert!(resp.body.is_empty());
    let resp = handle(&request(Method::Delete, b"/debug/error")).unwrap();
    assert_eq!(resp.status, 405);
    let resp = handle(&request(Method::Head, b"/alice")).unwrap();
    assert_eq!(resp.status, 405);
}

#[test]
fn recover_turns_failure_into_500() {
    let resp = recover(Err(InternalFailure));
    assert_eq!(resp.status, 500);
    assert!(resp.is_server_error());
    assert!(resp.body.is_empty());
    assert_eq!(resp.headers.len(), 0);
}

#[test]
fn recover_passes_a_response_through() {
    let mut given = Response::with_status(200);
    given.body = b"hello x".to_vec();
    let resp = recover(Ok(given));
    assert_eq!(resp.status, 200);
    assert_eq!(resp.body, b"hello x".to_vec());
    assert!(!resp.is_server_error());
}
