//! Routing and the route handler: a greeting for a one-segment path, a
//! deliberate failure for the diagnostic path.

use vstd::prelude::*;
use crate::message::{bare, Method, Request, RequestView, Response, ResponseView};

verus! {

/// The failure that the diagnostic route signals on purpose.
#[derive(Clone, Copy, Debug, PartialEq, Eq, Structural)]
pub struct InternalFailure;

/// The byte `/`, which parts the segments of a path.
pub const SLASH: u8 = 47;

/// Status of a greeting.
pub const STATUS_OK: u16 = 200;

/// Status for a path that no route matches.
pub const STATUS_NOT_FOUND: u16 = 404;

/// Status for a routed path asked with a method other than GET.
pub const STATUS_METHOD_NOT_ALLOWED: u16 = 405;

/// Status that a signalled failure is turned into.
pub const STATUS_INTERNAL_ERROR: u16 = 500;

/// The bytes of `/debug/error`.
pub open spec fn diagnostic_path() -> Seq<u8> {
    seq![SLASH, 100u8, 101u8, 98u8, 117u8, 103u8, SLASH, 101u8, 114u8, 114u8, 111u8, 114u8]
}

/// The bytes of `hello ` with its trailing space.
pub open spec fn greeting_prefix() -> Seq<u8> {
    seq![104u8, 101u8, 108u8, 108u8, 111u8, 32u8]
}

/// A path of one segment: a slash, then at least one byte, none of them a slash.
pub open spec fn is_single_segment(path: Seq<u8>) -> bool {
    &&& path.len() >= 2
    &&& path[0] == SLASH
    &&& forall|i: int| 1 <= i < path.len() ==> #[trigger] path[i] != SLASH
}

/// The greeting for a name: `hello `, then the name as it was received.
pub open spec fn greeting(name: Seq<u8>) -> Seq<u8> {
    greeting_prefix() + name
}

/// Where a path leads.
pub enum Route {
    /// A one-segment path; the segment is the name to greet.
    Greeting(Vec<u8>),
    /// The diagnostic path.
    Diagnostic,
    /// Anything else.
    Unmatched,
}

/// The model of a route.
pub enum RouteView {
    Greeting(Seq<u8>),
    Diagnostic,
    Unmatched,
}

impl View for Route {
    type V = RouteView;

    open spec fn view(&self) -> RouteView {
        match self {
            Route::Greeting(name) => RouteView::Greeting(name@),
            Route::Diagnostic => RouteView::Diagnostic,
            Route::Unmatched => RouteView::Unmatched,
        }
    }
}

/// The route of a path: the diagnostic path first, then one-segment paths.
pub open spec fn route_of(path: Seq<u8>) -> RouteView {
    if path == diagnostic_path() {
        RouteView::Diagnostic
    } else if is_single_segment(path) {
        RouteView::Greeting(path.skip(1))
    } else {
        RouteView::Unmatched
    }
}

/// What the routing layer and the handler make of a request, before any
/// other layer has touched the result.
pub open spec fn handled(req: RequestView) -> Result<ResponseView, InternalFailure> {
    match route_of(req.path) {
        RouteView::Unmatched => Ok(bare(STATUS_NOT_FOUND)),
        RouteView::Diagnostic => if req.method == Method::Get {
            Err(InternalFailure)
        } else {
            Ok(bare(STATUS_METHOD_NOT_ALLOWED))
        },
        RouteView::Greeting(name) => if req.method == Method::Get {
            Ok(
                ResponseView {
                    status: STATUS_OK,
                    headers: Seq::empty(),
                    body: greeting(name),
                    sized: true,
                },
            )
        } else {
            Ok(bare(STATUS_METHOD_NOT_ALLOWED))
        },
    }
}

/// The response that stands for a handler outcome: the outcome's own response,
/// or a bare 500 for a signalled failure.
pub open spec fn recovered(outcome: Result<ResponseView, InternalFailure>) -> ResponseView {
    match outcome {
        Ok(resp) => resp,
        Err(_) => bare(STATUS_INTERNAL_ERROR),
    }
}

/// Different names get different greetings, and a greeting gives its name back.
pub proof fn lemma_greeting_injective(a: Seq<u8>, b: Seq<u8>)
    ensures
        greeting(a).skip(6) == a,
        greeting(a) == greeting(b) <==> a == b,
{
    assert(greeting(a).skip(6) =~= a);
    assert(greeting(b).skip(6) =~= b);
}

/// Whether two byte strings are equal.
pub fn bytes_equal(a: &[u8], b: &[u8]) -> (r: bool)
    ensures
        r == (a@ == b@),
{
    if a.len() != b.len() {
        return false;
    }
    let mut i: usize = 0;
    while i < a.len()
        invariant
            a.len() == b.len(),
            i <= a.len(),
            forall|j: int| 0 <= j < i ==> a@[j] == b@[j],
        decreases a.len() - i,
    {
        if a[i] != b[i] {
            return false;
        }
        i = i + 1;
    }
    assert(a@ =~= b@);
    true
}

/// Whether the path is a slash followed by one non-empty segment.
pub fn single_segment(path: &[u8]) -> (r: bool)
    ensures
        r == is_single_segment(path@),
{
    if path.len() < 2 || path[0] != SLASH {
        return false;
    }
    let mut i: usize = 1;
    while i < path.len()
        invariant
            1 <= i <= path.len(),
            forall|j: int| 1 <= j < i ==> #[trigger] path@[j] != SLASH,
        decreases path.len() - i,
    {
        if path[i] == SLASH {
            return false;
        }
        i = i + 1;
    }
    true
}

/// Routes a path.
pub fn route(path: &[u8]) -> (r: Route)
    ensures
        r@ == route_of(path@),
{
    let diagnostic: Vec<u8> = vec![
        SLASH, 100u8, 101u8, 98u8, 117u8, 103u8, SLASH, 101u8, 114u8, 114u8, 111u8, 114u8,
    ];
    if bytes_equal(path, diagnostic.as_slice()) {
        Route::Diagnostic
    } else if single_segment(path) {
        let mut name: Vec<u8> = Vec::new();
        let mut i: usize = 1;
        while i < path.len()
            invariant
                1 <= i <= path.len(),
                name@ == path@.subrange(1, i as int),
            decreases path.len() - i,
        {
            name.push(path[i]);
            i = i + 1;
        }
        Route::Greeting(name)
    } else {
        Route::Unmatched
    }
}

/// The body of a greeting: `hello `, then the name, byte for byte.
pub fn hello(name: &[u8]) -> (body: Vec<u8>)
    ensures
        body@ == greeting(name@),
{
    let mut body: Vec<u8> = vec![104u8, 101u8, 108u8, 108u8, 111u8, 32u8];
    let mut i: usize = 0;
    while i < name.len()
        invariant
            i <= name.len(),
            body@ == greeting_prefix() + name@.take(i as int),
        decreases name.len() - i,
    {
        body.push(name[i]);
        assert(greeting_prefix() + name@.take(i + 1) =~= (greeting_prefix() + name@.take(
            i as int,
        )).push(name@[i as int]));
        i = i + 1;
    }
    body
}

/// Routes a request and runs the handler. A GET of a one-segment path is
/// answered 200 with the greeting and no headers; a GET of the diagnostic
/// path fails with `InternalFailure`; another method on either is answered
/// 405; any other path 404.
pub fn handle(req: &Request) -> (r: Result<Response, InternalFailure>)
    ensures
        match r {
            Ok(resp) => handled(req@) == Ok::<ResponseView, InternalFailure>(resp@),
            Err(e) => handled(req@) == Err::<ResponseView, InternalFailure>(e),
        },
{
    let is_get = match req.method {
        Method::Get => true,
        _ => false,
    };
    match route(req.path.as_slice()) {
        Route::Unmatched => Ok(Response::with_status(STATUS_NOT_FOUND)),
        Route::Diagnostic => if is_get {
            Err(InternalFailure)
        } else {
            Ok(Response::with_status(STATUS_METHOD_NOT_ALLOWED))
        },
        Route::Greeting(name) => if is_get {
            let mut resp = Response::with_status(STATUS_OK);
            resp.body = hello(name.as_slice());
            Ok(resp)
        } else {
            Ok(Response::with_status(STATUS_METHOD_NOT_ALLOWED))
        },
    }
}

/// Turns a handler outcome into a response: a signalled failure becomes a
/// bare 500, anything else passes unchanged.
pub fn recover(outcome: Result<Response, InternalFailure>) -> (r: Response)
    ensures
        r@ == recovered(
            match outcome {
                Ok(resp) => Ok(resp@),
                Err(e) => Err(e),
            },
        ),
{
    match outcome {
        Ok(resp) => resp,
        Err(_) => Response::with_status(STATUS_INTERNAL_ERROR),
    }
}

} // verus!
