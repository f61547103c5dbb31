use hello_pipeline::compression::{plan, Encoding};
use hello_pipeline::headers::Headers;
use hello_pipeline::message::{Method, Request, Response};
use hello_pipeline::pipeline::{complete, exchange, layers, prepare, Layer};
use hello_pipeline::policy::HeaderPolicy;

fn pairs(headers: &Headers) -> Vec<(Vec<u8>, Vec<u8>)> {
    headers.entries.iter().map(|h| (h.name.clone(), h.value.clone())).collect()
}

fn get(path: &[u8]) -> Request {
    Request { method: Method::Get, path: path.to_vec(), headers: Headers::new(), body: Vec::new() }
}

fn respond(req: &Request, elapsed_ms: u64) -> Response {
    exchange(req, &HeaderPolicy::standard(), Vec::new(), elapsed_ms)
}

#[test]
fn layers_are_in_the_fixed_order() {
    assert_eq!(
        layers(),
        vec![
            Layer::Observability,
            Layer::Timeout,
            Layer::Compression,
            Layer::HeaderPolicy,
            Layer::RouteHandler,
        ]
    );
}

#[test]
fn get_of_a_name_is_greeted() {
    let out = respond(&get(b"/alice"), 3);
    assert_eq!(out.status, 200);
    assert_eq!(out.body, b"hello alice".to_vec());
    assert_eq!(
        pairs(&out.headers),
        vec![
            (b"content-type".to_vec(), b"text/plain".to_vec()),
            (b"content-length".to_vec(), b"11".to_vec()),
        ]
    );
}

#[test]
fn get_of_the_diagnostic_path_is_a_500() {
    let out = respond(&get(b"/debug/error"), 3);
    assert_eq!(out.status, 500);
    assert!(out.is_server_error());
    assert_eq!(out.headers.get(b"content-type"), Some(b"text/plain".to_vec()));
    assert_eq!(out.headers.get(b"content-length"), Some(b"0".to_vec()));
}

#[test]
fn diagnostic_path_is_never_a_200() {
    for elapsed in [0, 9_999, 10_000, 60_000] {
        assert_ne!(respond(&get(b"/debug/error"), elapsed).status, 200);
    }
}

#[test]
fn unknown_path_is_a_404_with_content_type() {
    let out = respond(&get(b"/a/b"), 3);
    assert_eq!(out.status, 404);
    assert_eq!(out.headers.get(b"content-type"), Some(b"text/plain".to_vec()));
}

#[test]
fn sensitive_request_headers_reach_the_handler_unchanged() {
    let mut req = get(b"/alice");
    req.headers = Headers::new().append(b"Authorization", b"Bearer abc");
    let out = respond(&req, 3);
    assert_eq!(out.status, 200);
    assert_eq!(req.headers.get(b"authorization"), Some(b"Bearer abc".to_vec()));
}

#[test]
fn gzip_response_counts_the_coded_bytes() {
    let mut req = get(b"/alice");
    req.headers = Headers::new().append(b"Accept-Encoding", b"gzip");
    let policy = HeaderPolicy::standard();
    let inner = prepare(&req);
    assert_eq!(inner.body, b"hello alice".to_vec());
    assert_eq!(plan(&req.headers, &inner), Encoding::Gzip);
    let coded: Vec<u8> = vec![31, 139, 8, 0, 0, 0, 0, 0, 0, 255, 1, 2, 3, 4, 5, 6, 7, 8, 9, 10, 11, 12, 13, 14, 15, 16, 17, 18, 19, 20, 21];
    let out = complete(&req, &policy, inner, coded.clone(), 12);
    assert_eq!(out.status, 200);
    assert_eq!(out.body, coded);
    assert_eq!(
        pairs(&out.headers),
        vec![
            (b"content-encoding".to_vec(), b"gzip".to_vec()),
            (b"content-type".to_vec(), b"text/plain".to_vec()),
            (b"content-length".to_vec(), b"31".to_vec()),
        ]
    );
}

#[test]
fn empty_body_is_not_coded() {
    let mut req = get(b"/a/b");
    req.headers = Headers::new().append(b"Accept-Encoding", b"gzip");
    let out = exchange(&req, &HeaderPolicy::standard(), vec![1, 2, 3], 1);
    assert_eq!(out.status, 404);
    assert!(out.body.is_empty());
    assert!(!out.headers.contains(b"content-encoding"));
    assert_eq!(out.headers.get(b"content-length"), Some(b"0".to_vec()));
}

#[test]
fn late_handler_yields_the_timeout_response() {
    let out = respond(&get(b"/alice"), 10_000);
    assert_eq!(out.status, 408);
    assert!(out.body.is_empty());
    assert_eq!(out.headers.get(b"content-type"), Some(b"text/plain".to_vec()));
    assert_eq!(out.headers.get(b"content-length"), Some(b"0".to_vec()));
    let late = respond(&get(b"/alice"), 25_000);
    assert_eq!(late.status, 408);
    assert!(late.body.is_empty());
}

#[test]
fn timeout_drops_the_coded_body_too() {
    let mut req = get(b"/alice");
    req.headers = Headers::new().append(b"Accept-Encoding", b"gzip");
    let out = exchange(&req, &HeaderPolicy::standard(), vec![9, 9, 9], 10_001);
    assert_eq!(out.status, 408);
    assert!(out.body.is_empty());
    assert!(!out.headers.contains(b"content-encoding"));
}

#[test]
fn interleaved_requests_do_not_mix() {
    let alice = get(b"/alice");
    let bob = get(b"/bob");
    let inner_alice = prepare(&alice);
    let inner_bob = prepare(&bob);
    let policy = HeaderPolicy::standard();
    let out_bob = complete(&bob, &policy, inner_bob, Vec::new(), 2);
    let out_alice = complete(&alice, &policy, inner_alice, Vec::new(), 4);
    assert_eq!(out_alice.body, b"hello alice".to_vec());
    assert_eq!(out_bob.body, b"hello bob".to_vec());
    assert_eq!(out_alice.headers.get(b"content-length"), Some(b"11".to_vec()));
    assert_eq!(out_bob.headers.get(b"content-length"), Some(b"9".to_vec()));
}
