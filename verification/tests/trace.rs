use hello_pipeline::headers::Headers;
use hello_pipeline::message::{Method, Request, Response};
use hello_pipeline::policy::HeaderPolicy;
use hello_pipeline::trace::{elapsed_between, ChunkEvent, Completion, Span, SpanIds};

fn request() -> Request {
    Request {
        method: Method::Get,
        path: b"/alice".to_vec(),
        headers: Headers::new().append(b"Cookie", b"id=7").append(b"Accept", b"*/*"),
        body: Vec::new(),
    }
}

#[test]
fn elapsed_between_never_underflows() {
    assert_eq!(elapsed_between(10, 25), 15);
    assert_eq!(elapsed_between(10, 10), 0);
    assert_eq!(elapsed_between(10, 3), 0);
    assert_eq!(elapsed_between(0, u64::MAX), u64::MAX);
}

#[test]
fn open_records_method_path_and_masked_headers() {
    let span = Span::open(7, 1_000, &request(), &HeaderPolicy::standard());
    assert_eq!(span.id, 7);
    assert_eq!(span.started_micro, 1_000);
    assert_eq!(span.method, Method::Get);
    assert_eq!(span.path, b"/alice".to_vec());
    assert_eq!(span.headers.get(b"cookie"), Some(b"Sensitive".to_vec()));
    assert_eq!(span.headers.get(b"accept"), Some(b"*/*".to_vec()));
    assert!(span.chunks.is_empty());
    assert!(!span.is_closed());
}

#[test]
fn chunk_latency_counts_from_the_start() {
    let span = Span::open(1, 1_000, &request(), &HeaderPolicy::standard())
        .chunk(5, 1_200)
        .chunk(6, 1_500);
    assert_eq!(
        span.chunks,
        vec![
            ChunkEvent { size_bytes: 5, latency_micro: 200 },
            ChunkEvent { size_bytes: 6, latency_micro: 500 },
        ]
    );
}

#[test]
fn close_writes_the_terminal_record_once() {
    let span = Span::open(1, 1_000, &request(), &HeaderPolicy::standard())
        .chunk(11, 1_100)
        .close(200, 1_300);
    assert!(span.is_closed());
    assert_eq!(span.completion, Some(Completion { latency_micro: 300, status: 200 }));
    let again = span.close(500, 9_000).chunk(3, 9_500);
    assert_eq!(again.completion, Some(Completion { latency_micro: 300, status: 200 }));
    assert_eq!(again.chunks, vec![ChunkEvent { size_bytes: 11, latency_micro: 100 }]);
}

#[test]
fn record_logs_one_chunk_and_the_status() {
    let mut resp = Response::with_status(200);
    resp.body = b"hello alice".to_vec();
    let span = Span::open(3, 50, &request(), &HeaderPolicy::standard()).record(&resp, 80);
    assert_eq!(span.chunks, vec![ChunkEvent { size_bytes: 11, latency_micro: 30 }]);
    assert_eq!(span.completion, Some(Completion { latency_micro: 30, status: 200 }));
}

#[test]
fn record_closes_for_timeout_and_failure_alike() {
    for status in [408u16, 500u16] {
        let resp = Response::with_status(status);
        let span = Span::open(4, 0, &request(), &HeaderPolicy::standard()).record(&resp, 10);
        assert!(span.chunks.is_empty());
        assert_eq!(span.completion, Some(Completion { latency_micro: 10, status }));
    }
}

#[test]
fn span_ids_are_handed_out_once() {
    let ids = SpanIds::new();
    let (first, ids) = ids.issue();
    let (second, ids) = ids.issue();
    let (third, _) = ids.issue();
    assert_eq!(first, Some(1));
    assert_eq!(second, Some(2));
    assert_eq!(third, Some(3));
}

#[test]
fn span_ids_end_at_the_largest_number() {
    let (last, ids) = SpanIds { next: u64::MAX - 1 }.issue();
    assert_eq!(last, Some(u64::MAX - 1));
    assert_eq!(ids, SpanIds { next: u64::MAX });
    let (none, same) = ids.issue();
    assert_eq!(none, None);
    assert_eq!(same, SpanIds { next: u64::MAX });
}
