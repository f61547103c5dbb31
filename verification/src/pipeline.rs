//! The assembled pipeline: the fixed order of the layers and the response
//! that the whole stack gives for a request.

use vstd::prelude::*;
use crate::compression::{coding_name, encode, encoded, negotiated, plan, planned, Encoding};
use crate::handler::{
    diagnostic_path, greeting, handle, handled, is_single_segment, recover, recovered,
    InternalFailure, STATUS_INTERNAL_ERROR, STATUS_OK,
};
use crate::headers::{has_name, lemma_without_name, same_name, without_name};
use crate::message::{bare, Method, Request, RequestView, Response, ResponseView};
use crate::names::{content_encoding, content_length, content_type, text_plain};
use crate::policy::{
    digits, finalized, is_representable, lemma_content_length_exact, lemma_content_type_defaulted,
    standard_policy, with_content_type, HeaderPolicy, HeaderPolicyView,
};
use crate::timeout::{bound, bounded, BUDGET_MS, STATUS_REQUEST_TIMEOUT};

verus! {

/// The layers of the pipeline.
#[derive(Clone, Copy, Debug, PartialEq, Eq, Structural)]
pub enum Layer {
    Observability,
    Timeout,
    Compression,
    HeaderPolicy,
    RouteHandler,
}

/// The order of the layers, outermost first. A request passes them in this
/// order and its response in the reverse.
pub open spec fn layering() -> Seq<Layer> {
    seq![
        Layer::Observability,
        Layer::Timeout,
        Layer::Compression,
        Layer::HeaderPolicy,
        Layer::RouteHandler,
    ]
}

/// What the route handler and the recovery of its failure give for a request.
pub open spec fn prepared(req: RequestView) -> ResponseView {
    recovered(handled(req))
}

/// What the client gets once the outer layers have acted on `inner`. `coded`
/// is the body of `inner` in the planned coding and `elapsed_ms` the time that
/// handler and coding took together. The compression layer puts the coded
/// body in; the timeout layer keeps that response within the budget and
/// replaces it by a bare 408 from the budget on. The header policy sits
/// innermost in the stack, yet it acts on the response object that goes out,
/// whichever side of the race produced it: the default content type does not
/// depend on the layers around it, and the content length has to count the
/// bytes as they are after coding.
pub open spec fn completed(
    req: RequestView,
    policy: HeaderPolicyView,
    inner: ResponseView,
    coded: Seq<u8>,
    elapsed_ms: u64,
) -> ResponseView {
    finalized(bounded(encoded(inner, planned(req.headers, inner), coded), elapsed_ms), policy)
}

/// The response of the whole pipeline for one request.
pub open spec fn exchanged(
    req: RequestView,
    policy: HeaderPolicyView,
    coded: Seq<u8>,
    elapsed_ms: u64,
) -> ResponseView {
    completed(req, policy, prepared(req), coded, elapsed_ms)
}

/// A GET of a one-segment path that stays within the budget is answered 200.
/// Where the request allows no coding the body is exactly the greeting of the
/// segment; else it is the coded body that was handed in.
pub proof fn lemma_greeting_served(
    req: RequestView,
    policy: HeaderPolicyView,
    coded: Seq<u8>,
    elapsed_ms: u64,
)
    requires
        req.method == Method::Get,
        is_single_segment(req.path),
        elapsed_ms < BUDGET_MS,
    ensures
        req.path != diagnostic_path(),
        exchanged(req, policy, coded, elapsed_ms).status == STATUS_OK,
        negotiated(req.headers) == Encoding::Identity ==> exchanged(
            req,
            policy,
            coded,
            elapsed_ms,
        ).body == greeting(req.path.skip(1)),
        negotiated(req.headers) != Encoding::Identity ==> exchanged(
            req,
            policy,
            coded,
            elapsed_ms,
        ).body == coded,
{
    assert(diagnostic_path()[6] == 47u8);
    assert(greeting(req.path.skip(1)).len() > 0);
}

/// A GET of the diagnostic path is never answered 200: within the budget the
/// answer is a 500, from the budget on the timeout's 408.
pub proof fn lemma_diagnostic_fails(
    req: RequestView,
    policy: HeaderPolicyView,
    coded: Seq<u8>,
    elapsed_ms: u64,
)
    requires
        req.method == Method::Get,
        req.path == diagnostic_path(),
    ensures
        handled(req) == Err::<ResponseView, InternalFailure>(InternalFailure),
        exchanged(req, policy, coded, elapsed_ms).status != STATUS_OK,
        elapsed_ms < BUDGET_MS ==> exchanged(req, policy, coded, elapsed_ms).status
            == STATUS_INTERNAL_ERROR,
        elapsed_ms >= BUDGET_MS ==> exchanged(req, policy, coded, elapsed_ms).status
            == STATUS_REQUEST_TIMEOUT,
{
}

/// From the budget on the client gets the timeout response and nothing of
/// what the handler produced: the response is the same for every request,
/// every handler result and every coded body.
pub proof fn lemma_deadline_wins(
    req: RequestView,
    policy: HeaderPolicyView,
    inner: ResponseView,
    coded: Seq<u8>,
    elapsed_ms: u64,
)
    requires
        elapsed_ms >= BUDGET_MS,
    ensures
        completed(req, policy, inner, coded, elapsed_ms) == finalized(
            bare(STATUS_REQUEST_TIMEOUT),
            policy,
        ),
        completed(req, policy, inner, coded, elapsed_ms).status == STATUS_REQUEST_TIMEOUT,
        completed(req, policy, inner, coded, elapsed_ms).body == Seq::<u8>::empty(),
        exchanged(req, policy, coded, elapsed_ms) == finalized(bare(STATUS_REQUEST_TIMEOUT), policy),
{
}

/// Under the standard policy every response of the pipeline names a content
/// type; the handler sets none, so it is `text/plain`. The content length is
/// there and is the decimal count of the bytes that go out.
pub proof fn lemma_headers_completed(req: RequestView, coded: Seq<u8>, elapsed_ms: u64)
    ensures
        has_name(exchanged(req, standard_policy(), coded, elapsed_ms).headers, content_type()),
        forall|e: (Seq<u8>, Seq<u8>)|
            same_name(e.0, content_type()) && #[trigger] exchanged(
                req,
                standard_policy(),
                coded,
                elapsed_ms,
            ).headers.contains(e) ==> e.1 == text_plain(),
        has_name(exchanged(req, standard_policy(), coded, elapsed_ms).headers, content_length()),
        forall|e: (Seq<u8>, Seq<u8>)|
            same_name(e.0, content_length()) && #[trigger] exchanged(
                req,
                standard_policy(),
                coded,
                elapsed_ms,
            ).headers.contains(e) ==> e.1 == digits(
                exchanged(req, standard_policy(), coded, elapsed_ms).body.len(),
            ),
{
    let policy = standard_policy();
    let inner = prepared(req);
    let before = bounded(encoded(inner, planned(req.headers, inner), coded), elapsed_ms);
    assert(is_representable(text_plain()));
    lemma_content_type_defaulted(before, policy);
    lemma_content_length_exact(before, policy);
    assert(inner.headers =~= Seq::<(Seq<u8>, Seq<u8>)>::empty());
    assert(!has_name(before.headers, content_type())) by {
        if has_name(before.headers, content_type()) {
            let stripped = without_name(inner.headers, content_length());
            assert(stripped =~= Seq::<(Seq<u8>, Seq<u8>)>::empty());
            assert(before.headers.len() == 1);
            assert(before.headers[0].0 == content_encoding());
            assert(!same_name(content_encoding(), content_type()));
        }
    }
}

/// Where a request allows a coding, a greeting that stays within the budget
/// goes out with that coding named in `content-encoding`, and its content
/// length counts the coded bytes, not the greeting's.
pub proof fn lemma_coded_greeting(req: RequestView, coded: Seq<u8>, elapsed_ms: u64)
    requires
        req.method == Method::Get,
        is_single_segment(req.path),
        elapsed_ms < BUDGET_MS,
        negotiated(req.headers) != Encoding::Identity,
    ensures
        exchanged(req, standard_policy(), coded, elapsed_ms).headers.contains(
            (content_encoding(), coding_name(negotiated(req.headers))),
        ),
        exchanged(req, standard_policy(), coded, elapsed_ms).headers.contains(
            (content_length(), digits(coded.len())),
        ),
        forall|e: (Seq<u8>, Seq<u8>)|
            same_name(e.0, content_length()) && #[trigger] exchanged(
                req,
                standard_policy(),
                coded,
                elapsed_ms,
            ).headers.contains(e) ==> e.1 == digits(coded.len()),
{
    let policy = standard_policy();
    let inner = prepared(req);
    lemma_greeting_served(req, policy, coded, elapsed_ms);
    lemma_headers_completed(req, coded, elapsed_ms);
    let before = encoded(inner, planned(req.headers, inner), coded);
    let out = exchanged(req, policy, coded, elapsed_ms).headers;
    let entry = (content_encoding(), coding_name(negotiated(req.headers)));
    assert(greeting(req.path.skip(1)).len() > 0);
    assert(diagnostic_path()[6] == 47u8);
    assert(is_representable(text_plain()));
    assert(before.headers[before.headers.len() - 1] == entry);
    let typed = with_content_type(before.headers, policy);
    assert(typed[before.headers.len() - 1] == entry);
    assert(typed.contains(entry));
    lemma_without_name(typed, content_length());
    assert(!same_name(content_encoding(), content_length()));
    let stripped = without_name(typed, content_length());
    assert(stripped.contains(entry));
    let k = choose|k: int| 0 <= k < stripped.len() && stripped[k] == entry;
    assert(out[k] == entry);
    assert(out[out.len() - 1] == (content_length(), digits(coded.len())));
}

/// The order of the layers, outermost first.
pub fn layers() -> (r: Vec<Layer>)
    ensures
        r@ == layering(),
{
    vec![
        Layer::Observability,
        Layer::Timeout,
        Layer::Compression,
        Layer::HeaderPolicy,
        Layer::RouteHandler,
    ]
}

/// Runs the route handler on a request and recovers a signalled failure.
pub fn prepare(req: &Request) -> (r: Response)
    ensures
        r@ == prepared(req@),
{
    recover(handle(req))
}

/// Lets the outer layers act on the handler's response. `coded` is the body
/// of `inner` in the coding that `plan` names for this request and response;
/// `elapsed_ms` is the time that handler and coding took together.
pub fn complete(
    req: &Request,
    policy: &HeaderPolicy,
    inner: Response,
    coded: Vec<u8>,
    elapsed_ms: u64,
) -> (r: Response)
    ensures
        r@ == completed(req@, policy@, inner@, coded@, elapsed_ms),
{
    let encoding = plan(&req.headers, &inner);
    policy.finalize(bound(encode(inner, encoding, coded), elapsed_ms))
}

/// The response of the whole pipeline for one request, given the coded body
/// and the elapsed time that the surrounding program observed.
pub fn exchange(req: &Request, policy: &HeaderPolicy, coded: Vec<u8>, elapsed_ms: u64) -> (r:
    Response)
    ensures
        r@ == exchanged(req@, policy@, coded@, elapsed_ms),
{
    let inner = prepare(req);
    complete(req, policy, inner, coded, elapsed_ms)
}

} // verus!
