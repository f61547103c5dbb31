use hello_pipeline::headers::Headers;
use hello_pipeline::message::Response;
use hello_pipeline::policy::{decimal, HeaderPolicy};

fn pairs(headers: &Headers) -> Vec<(Vec<u8>, Vec<u8>)> {
    headers.entries.iter().map(|h| (h.name.clone(), h.value.clone())).collect()
}

fn response(body: &[u8]) -> Response {
    let mut resp = Response::with_status(200);
    resp.body = body.to_vec();
    resp
}

#[test]
fn standard_policy_values() {
    let policy = HeaderPolicy::standard();
    assert_eq!(policy.sensitive, vec![b"authorization".to_vec(), b"cookie".to_vec()]);
    assert_eq!(policy.default_content_type, b"text/plain".to_vec());
    assert!(policy.recompute_length);
}

#[test]
fn decimal_writes_digits() {
    assert_eq!(decimal(0), b"0".to_vec());
    assert_eq!(decimal(7), b"7".to_vec());
    assert_eq!(decimal(10), b"10".to_vec());
    assert_eq!(decimal(11), b"11".to_vec());
    assert_eq!(decimal(1234567890), b"1234567890".to_vec());
    assert_eq!(decimal(u64::MAX), b"18446744073709551615".to_vec());
}

#[test]
fn hides_names_without_regard_to_case() {
    let policy = HeaderPolicy::standard();
    assert!(policy.hides(b"Authorization"));
    assert!(policy.hides(b"COOKIE"));
    assert!(!policy.hides(b"set-cookie"));
    assert!(!policy.hides(b"accept"));
}

#[test]
fn mask_replaces_sensitive_values_only() {
    let policy = HeaderPolicy::standard();
    let hs = Headers::new()
        .append(b"Accept", b"*/*")
        .append(b"Authorization", b"Bearer abc123")
        .append(b"cookie", b"session=42");
    let logged = policy.mask(&hs);
    assert_eq!(
        pairs(&logged),
        vec![
            (b"Accept".to_vec(), b"*/*".to_vec()),
            (b"Authorization".to_vec(), b"Sensitive".to_vec()),
            (b"cookie".to_vec(), b"Sensitive".to_vec()),
        ]
    );
    assert_eq!(hs.get(b"authorization"), Some(b"Bearer abc123".to_vec()));
    assert_eq!(hs.get(b"cookie"), Some(b"session=42".to_vec()));
}

#[test]
fn mask_adds_nothing_when_nothing_is_sensitive() {
    let policy = HeaderPolicy::standard();
    let hs = Headers::new().append(b"accept", b"*/*").append(b"host", b"example");
    let logged = policy.mask(&hs);
    assert_eq!(pairs(&logged), pairs(&hs));
    assert!(!logged.contains(b"authorization"));
    assert!(!logged.contains(b"cookie"));
    assert!(pairs(&logged).iter().all(|(_, v)| v != &b"Sensitive".to_vec()));
}

#[test]
fn finalize_adds_default_content_type_and_length() {
    let policy = HeaderPolicy::standard();
    let out = policy.finalize(response(b"hello alice"));
    assert_eq!(
        pairs(&out.headers),
        vec![
            (b"content-type".to_vec(), b"text/plain".to_vec()),
            (b"content-length".to_vec(), b"11".to_vec()),
        ]
    );
    assert_eq!(out.status, 200);
    assert_eq!(out.body, b"hello alice".to_vec());
}

#[test]
fn finalize_keeps_a_content_type_that_was_set() {
    let policy = HeaderPolicy::standard();
    let mut resp = response(b"<p>");
    resp.headers = Headers::new().append(b"Content-Type", b"text/html");
    let out = policy.finalize(resp);
    assert_eq!(out.headers.get(b"content-type"), Some(b"text/html".to_vec()));
    assert_eq!(out.headers.len(), 2);
}

#[test]
fn finalize_overwrites_a_wrong_length() {
    let policy = HeaderPolicy::standard();
    let mut resp = response(b"abc");
    resp.headers =
        Headers::new().append(b"Content-Length", b"999").append(b"content-length", b"1");
    let out = policy.finalize(resp);
    assert_eq!(
        pairs(&out.headers),
        vec![
            (b"content-type".to_vec(), b"text/plain".to_vec()),
            (b"content-length".to_vec(), b"3".to_vec()),
        ]
    );
}

#[test]
fn finalize_omits_length_of_unsized_body() {
    let policy = HeaderPolicy::standard();
    let mut resp = response(b"abc");
    resp.sized = false;
    resp.headers = Headers::new().append(b"Content-Length", b"999");
    let out = policy.finalize(resp);
    assert!(!out.headers.contains(b"content-length"));
    assert_eq!(out.headers.get(b"content-type"), Some(b"text/plain".to_vec()));
    assert!(!out.sized);
}

#[test]
fn finalize_leaves_length_alone_when_not_recomputing() {
    let mut policy = HeaderPolicy::standard();
    policy.recompute_length = false;
    let mut resp = response(b"abc");
    resp.headers = Headers::new().append(b"Content-Length", b"999");
    let out = policy.finalize(resp);
    assert_eq!(out.headers.get(b"content-length"), Some(b"999".to_vec()));
}

#[test]
fn finalize_drops_a_default_that_cannot_be_sent() {
    let mut policy = HeaderPolicy::standard();
    policy.default_content_type = b"text/\nplain".to_vec();
    let out = policy.finalize(response(b"abc"));
    assert!(!out.headers.contains(b"content-type"));
    assert_eq!(out.headers.get(b"content-length"), Some(b"3".to_vec()));

    policy.default_content_type = vec![b'a', 127];
    let out = policy.finalize(response(b"abc"));
    assert!(!out.headers.contains(b"content-type"));
}

#[test]
fn finalize_accepts_tab_and_high_bytes_in_default() {
    let mut policy = HeaderPolicy::standard();
    policy.default_content_type = vec![b'a', b'\t', 200, b' '];
    let out = policy.finalize(response(b"abc"));
    assert_eq!(out.headers.get(b"content-type"), Some(vec![b'a', b'\t', 200, b' ']));
}
