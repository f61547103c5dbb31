//! The observability layer's record of one request: a unique identifier,
//! opened at entry, one event per body chunk, closed exactly once.

use vstd::prelude::*;
use crate::headers::{copy_bytes, HeaderSeq, Headers};
use crate::message::{Method, Request, RequestView, Response, ResponseView};
use crate::policy::{masked, HeaderPolicy, HeaderPolicyView};

verus! {

/// One body chunk on its way out.
#[derive(Clone, Copy, Debug, PartialEq, Eq, Structural)]
pub struct ChunkEvent {
    /// Bytes in the chunk.
    pub size_bytes: u64,
    /// Microseconds from the start of the request to this chunk.
    pub latency_micro: u64,
}

/// The terminal record of a request.
#[derive(Clone, Copy, Debug, PartialEq, Eq, Structural)]
pub struct Completion {
    /// Microseconds from the start of the request to its end.
    pub latency_micro: u64,
    /// The status that went to the client.
    pub status: u16,
}

/// The source of span identifiers: hands out each number once, in rising order.
#[derive(Clone, Copy, Debug, PartialEq, Eq, Structural)]
pub struct SpanIds {
    /// The identifier that is handed out next.
    pub next: u64,
}

/// The record of one request.
pub struct Span {
    pub id: u64,
    /// The clock, in microseconds, when the request came in.
    pub started_micro: u64,
    pub method: Method,
    pub path: Vec<u8>,
    /// The request headers as a log may see them.
    pub headers: Headers,
    pub chunks: Vec<ChunkEvent>,
    /// `None` while the request is in flight.
    pub completion: Option<Completion>,
}

/// The model of a span.
pub struct SpanView {
    pub id: u64,
    pub started_micro: u64,
    pub method: Method,
    pub path: Seq<u8>,
    pub headers: HeaderSeq,
    pub chunks: Seq<ChunkEvent>,
    pub completion: Option<Completion>,
}

impl View for Span {
    type V = SpanView;

    open spec fn view(&self) -> SpanView {
        SpanView {
            id: self.id,
            started_micro: self.started_micro,
            method: self.method,
            path: self.path@,
            headers: self.headers@,
            chunks: self.chunks@,
            completion: self.completion,
        }
    }
}

/// What a source hands out and what it becomes: its next number, and a source
/// one further; nothing, and itself, once the largest number is reached.
pub open spec fn issued(ids: SpanIds) -> (Option<u64>, SpanIds) {
    if ids.next < u64::MAX {
        (Some(ids.next), SpanIds { next: (ids.next + 1) as u64 })
    } else {
        (None, ids)
    }
}

/// Time from `started` to `now`; zero where the clock went backwards.
pub open spec fn elapsed(started: u64, now: u64) -> u64 {
    if now >= started {
        (now - started) as u64
    } else {
        0
    }
}

/// The span of a request at entry: method and path as received, headers
/// masked, no chunk yet, not closed.
pub open spec fn opened(id: u64, now: u64, req: RequestView, policy: HeaderPolicyView) -> SpanView {
    SpanView {
        id,
        started_micro: now,
        method: req.method,
        path: req.path,
        headers: masked(req.headers, policy.sensitive),
        chunks: Seq::empty(),
        completion: None,
    }
}

/// The span after a chunk of `size_bytes` left at `now`. The latency counts
/// from the start of the request, not from the chunk before. A closed span
/// takes no more chunks.
pub open spec fn chunked(span: SpanView, size_bytes: u64, now: u64) -> SpanView {
    if span.completion is Some {
        span
    } else {
        SpanView {
            chunks: span.chunks.push(
                ChunkEvent { size_bytes, latency_micro: elapsed(span.started_micro, now) },
            ),
            ..span
        }
    }
}

/// The span after the response finished with `status` at `now`. A span that
/// is closed already stays as it is.
pub open spec fn closed(span: SpanView, status: u16, now: u64) -> SpanView {
    if span.completion is Some {
        span
    } else {
        SpanView {
            completion: Some(Completion { latency_micro: elapsed(span.started_micro, now), status }),
            ..span
        }
    }
}

/// The span after a response went out at `now`: one chunk event for a body
/// that has bytes, none for an empty one, then the terminal record with the
/// response's status, whatever produced the response.
pub open spec fn recorded(span: SpanView, resp: ResponseView, now: u64) -> SpanView {
    if resp.body.len() == 0 {
        closed(span, resp.status, now)
    } else {
        closed(chunked(span, resp.body.len() as u64, now), resp.status, now)
    }
}

/// A span is closed once: after the first close, neither a second close nor
/// a late chunk changes it, and the first close keeps every chunk recorded
/// before it.
pub proof fn lemma_closed_once(
    span: SpanView,
    status: u16,
    now: u64,
    later_status: u16,
    later: u64,
    size_bytes: u64,
)
    ensures
        closed(span, status, now).completion is Some,
        closed(span, status, now).chunks == span.chunks,
        closed(closed(span, status, now), later_status, later) == closed(span, status, now),
        chunked(closed(span, status, now), size_bytes, later) == closed(span, status, now),
        span.completion is None ==> closed(span, status, now).completion == Some(
            Completion { latency_micro: elapsed(span.started_micro, now), status },
        ),
{
}

/// Identifiers never repeat: whatever a source hands out after `id` is greater
/// than `id`, because the source only moves forward.
pub proof fn lemma_ids_rise(before: SpanIds, id: u64, after: SpanIds, later: u64, last: SpanIds)
    requires
        issued(before) == (Some(id), after),
        after.next <= last.next,
        issued(last).0 == Some(later),
    ensures
        id < later,
{
}

impl SpanIds {
    /// A source that starts at 1.
    pub fn new() -> (r: SpanIds)
        ensures
            r.next == 1,
    {
        SpanIds { next: 1 }
    }

    /// Hands out the next identifier and the source to go on with; `None`
    /// once the numbers are used up.
    pub fn issue(self) -> (r: (Option<u64>, SpanIds))
        ensures
            r == issued(self),
    {
        if self.next < u64::MAX {
            (Some(self.next), SpanIds { next: self.next + 1 })
        } else {
            (None, self)
        }
    }
}

/// Time from `started` to `now`; zero where the clock went backwards.
pub fn elapsed_between(started: u64, now: u64) -> (r: u64)
    ensures
        r == elapsed(started, now),
{
    if now >= started {
        now - started
    } else {
        0
    }
}

impl Span {
    /// Opens the span of a request that came in at `now`.
    pub fn open(id: u64, now: u64, req: &Request, policy: &HeaderPolicy) -> (r: Span)
        ensures
            r@ == opened(id, now, req@, policy@),
    {
        Span {
            id,
            started_micro: now,
            method: req.method,
            path: copy_bytes(req.path.as_slice()),
            headers: policy.mask(&req.headers),
            chunks: Vec::new(),
            completion: None,
        }
    }

    /// Records a body chunk that left at `now`.
    pub fn chunk(self, size_bytes: u64, now: u64) -> (r: Span)
        ensures
            r@ == chunked(self@, size_bytes, now),
    {
        if self.completion.is_some() {
            self
        } else {
            let mut span = self;
            let event = ChunkEvent { size_bytes, latency_micro: elapsed_between(span.started_micro, now) };
            span.chunks.push(event);
            span
        }
    }

    /// Closes the span with the status that went out at `now`.
    pub fn close(self, status: u16, now: u64) -> (r: Span)
        ensures
            r@ == closed(self@, status, now),
    {
        if self.completion.is_some() {
            self
        } else {
            let mut span = self;
            span.completion = Some(
                Completion { latency_micro: elapsed_between(span.started_micro, now), status },
            );
            span
        }
    }

    /// Records the response that went out at `now` and closes the span.
    pub fn record(self, resp: &Response, now: u64) -> (r: Span)
        ensures
            r@ == recorded(self@, resp@, now),
            r@.completion is Some,
            self@.completion is None ==> r@.completion == Some(
                Completion {
                    latency_micro: elapsed(self@.started_micro, now),
                    status: resp@.status,
                },
            ),
    {
        if resp.body.len() == 0 {
            self.close(resp.status, now)
        } else {
            self.chunk(resp.body.len() as u64, now).close(resp.status, now)
        }
    }

    /// Whether the terminal record has been written.
    pub fn is_closed(&self) -> (r: bool)
        ensures
            r == (self@.completion is Some),
    {
        self.completion.is_some()
    }
}

} // verus!
