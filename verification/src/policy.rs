//! The header policy: sensitive values hidden from logs, a default content
//! type, and a content length that is either exact or absent.

use vstd::prelude::*;
use crate::headers::{
    copy_bytes, has_name, lemma_same_name_transitive, lemma_without_name, names_match, same_name,
    with_default, with_value, without_name, Header, HeaderSeq, Headers,
};
use crate::message::{Response, ResponseView};
use crate::names::{
    authorization_bytes, content_length, content_length_bytes, content_type, content_type_bytes,
    cookie_bytes, marker, marker_bytes, text_plain, text_plain_bytes,
};

verus! {

/// What the header policy is configured with.
pub struct HeaderPolicy {
    /// Names of the headers whose values must not reach a log.
    pub sensitive: Vec<Vec<u8>>,
    /// The content type given to a response that names none.
    pub default_content_type: Vec<u8>,
    /// Whether the content length is rewritten from the body's size.
    pub recompute_length: bool,
}

/// The model of a header policy.
pub struct HeaderPolicyView {
    pub sensitive: Seq<Seq<u8>>,
    pub default_content_type: Seq<u8>,
    pub recompute_length: bool,
}

impl View for HeaderPolicy {
    type V = HeaderPolicyView;

    open spec fn view(&self) -> HeaderPolicyView {
        HeaderPolicyView {
            sensitive: Seq::new(self.sensitive@.len(), |i: int| self.sensitive@[i]@),
            default_content_type: self.default_content_type@,
            recompute_length: self.recompute_length,
        }
    }
}

/// The policy of this server: authorization and cookie are sensitive, the
/// default content type is `text/plain`, the content length is recomputed.
pub open spec fn standard_policy() -> HeaderPolicyView {
    HeaderPolicyView {
        sensitive: seq![crate::names::authorization(), crate::names::cookie()],
        default_content_type: text_plain(),
        recompute_length: true,
    }
}

/// Whether `name` is one of the sensitive names.
pub open spec fn is_sensitive(name: Seq<u8>, sensitive: Seq<Seq<u8>>) -> bool {
    exists|i: int| 0 <= i < sensitive.len() && same_name(#[trigger] sensitive[i], name)
}

/// What a log may see of a header list: every entry in place, the value of
/// each sensitive one replaced by the marker.
pub open spec fn masked(hs: HeaderSeq, sensitive: Seq<Seq<u8>>) -> HeaderSeq {
    Seq::new(
        hs.len(),
        |i: int|
            if is_sensitive(hs[i].0, sensitive) {
                (hs[i].0, marker())
            } else {
                hs[i]
            },
    )
}

/// A byte that may stand in a header value: a tab, or anything from the
/// space on except the delete character.
pub open spec fn is_value_byte(b: u8) -> bool {
    (b >= 32 && b != 127) || b == 9
}

/// A header value that can be put on the wire: every byte is a value byte.
pub open spec fn is_representable(value: Seq<u8>) -> bool {
    forall|i: int| 0 <= i < value.len() ==> is_value_byte(#[trigger] value[i])
}

/// The decimal digits of a number, most significant first, as ASCII.
pub open spec fn digits(n: nat) -> Seq<u8>
    decreases n,
{
    if n < 10 {
        seq![(48 + n) as u8]
    } else {
        digits(n / 10).push((48 + n % 10) as u8)
    }
}

/// Step one of finishing a response: the default content type is added where
/// the response names none. A default that cannot be put on the wire is left out.
pub open spec fn with_content_type(hs: HeaderSeq, policy: HeaderPolicyView) -> HeaderSeq {
    if is_representable(policy.default_content_type) {
        with_default(hs, content_type(), policy.default_content_type)
    } else {
        hs
    }
}

/// Step two: where the policy recomputes the length, a body of known size gets
/// exactly one content length, its true byte count; a body of unknown size gets none.
pub open spec fn with_length(
    hs: HeaderSeq,
    policy: HeaderPolicyView,
    body_len: nat,
    sized: bool,
) -> HeaderSeq {
    if !policy.recompute_length {
        hs
    } else if sized {
        with_value(hs, content_length(), digits(body_len))
    } else {
        without_name(hs, content_length())
    }
}

/// A response after the header policy: status and body untouched, the headers
/// completed by both steps.
pub open spec fn finalized(resp: ResponseView, policy: HeaderPolicyView) -> ResponseView {
    ResponseView {
        status: resp.status,
        headers: with_length(
            with_content_type(resp.headers, policy),
            policy,
            resp.body.len(),
            resp.sized,
        ),
        body: resp.body,
        sized: resp.sized,
    }
}

/// Masking keeps every entry's place and name, leaves the entries that are
/// not sensitive as they are, and shows the marker for each sensitive one. A
/// name that the request does not carry has no entry in the masked list.
pub proof fn lemma_masking_hides(hs: HeaderSeq, sensitive: Seq<Seq<u8>>)
    ensures
        masked(hs, sensitive).len() == hs.len(),
        forall|i: int| 0 <= i < hs.len() ==> (#[trigger] masked(hs, sensitive)[i]).0 == hs[i].0,
        forall|i: int|
            0 <= i < hs.len() && !is_sensitive(hs[i].0, sensitive) ==> #[trigger] masked(
                hs,
                sensitive,
            )[i] == hs[i],
        forall|i: int|
            0 <= i < hs.len() && is_sensitive(hs[i].0, sensitive) ==> (#[trigger] masked(
                hs,
                sensitive,
            )[i]).1 == marker(),
        forall|name: Seq<u8>| #[trigger]
            has_name(masked(hs, sensitive), name) <==> has_name(hs, name),
{
    let m = masked(hs, sensitive);
    assert forall|name: Seq<u8>| #[trigger] has_name(m, name) <==> has_name(hs, name) by {
        if has_name(m, name) {
            let i = choose|i: int| 0 <= i < m.len() && same_name((#[trigger] m[i]).0, name);
            assert(same_name(hs[i].0, name));
        }
        if has_name(hs, name) {
            let i = choose|i: int| 0 <= i < hs.len() && same_name((#[trigger] hs[i]).0, name);
            assert(same_name(m[i].0, name));
        }
    }
}

/// The value of a sensitive header, unless it is the marker itself, shows
/// under no sensitive name of the masked list.
pub proof fn lemma_secret_not_logged(hs: HeaderSeq, sensitive: Seq<Seq<u8>>, i: int)
    requires
        0 <= i < hs.len(),
        is_sensitive(hs[i].0, sensitive),
        hs[i].1 != marker(),
    ensures
        forall|j: int|
            0 <= j < hs.len() && is_sensitive(hs[j].0, sensitive) ==> (#[trigger] masked(
                hs,
                sensitive,
            )[j]).1 != hs[i].1,
{
}

/// After the policy a response names a content type whenever the default can
/// be put on the wire; every content type that the handler set is still
/// there; and where the handler set none, the default is the only one.
pub proof fn lemma_content_type_defaulted(resp: ResponseView, policy: HeaderPolicyView)
    requires
        is_representable(policy.default_content_type),
    ensures
        has_name(finalized(resp, policy).headers, content_type()),
        forall|e: (Seq<u8>, Seq<u8>)|
            same_name(e.0, content_type()) && resp.headers.contains(e) ==> #[trigger] finalized(
                resp,
                policy,
            ).headers.contains(e),
        !has_name(resp.headers, content_type()) ==> forall|e: (Seq<u8>, Seq<u8>)|
            same_name(e.0, content_type()) && #[trigger] finalized(resp, policy).headers.contains(
                e,
            ) ==> e == (content_type(), policy.default_content_type),
{
    let h1 = with_content_type(resp.headers, policy);
    let out = finalized(resp, policy).headers;
    let ct = content_type();
    let cl = content_length();
    // the default content type
    assert(has_name(h1, ct)) by {
        if !has_name(resp.headers, ct) {
            assert(same_name(h1[h1.len() - 1].0, ct));
        }
    }
    assert forall|e: (Seq<u8>, Seq<u8>)| resp.headers.contains(e) implies h1.contains(e) by {
        let k = choose|k: int| 0 <= k < resp.headers.len() && resp.headers[k] == e;
        assert(h1[k] == e);
    }
    // the content length
    lemma_without_name(h1, cl);
    let stripped = without_name(h1, cl);
    assert(has_name(stripped, ct));
    assert(has_name(out, ct)) by {
        let k = choose|k: int| 0 <= k < stripped.len() && same_name((#[trigger] stripped[k]).0, ct);
        if policy.recompute_length && resp.sized {
            assert(out[k] == stripped[k]);
        }
    }
    assert forall|e: (Seq<u8>, Seq<u8>)|
        same_name(e.0, ct) && resp.headers.contains(e) implies #[trigger] out.contains(e) by {
        lemma_same_name_transitive(e.0, ct, cl);
        assert(h1.contains(e));
        assert(stripped.contains(e));
        if policy.recompute_length && resp.sized {
            let k = choose|k: int| 0 <= k < stripped.len() && stripped[k] == e;
            assert(out[k] == e);
        }
    }
    if !has_name(resp.headers, ct) {
        assert forall|e: (Seq<u8>, Seq<u8>)|
            same_name(e.0, ct) && #[trigger] out.contains(e) implies e == (
            ct,
            policy.default_content_type,
        ) by {
            lemma_same_name_transitive(e.0, ct, cl);
            let k = choose|k: int| 0 <= k < out.len() && out[k] == e;
            if policy.recompute_length && resp.sized && k == out.len() - 1 {
                assert(e.0 == cl);
            } else {
                if policy.recompute_length && resp.sized {
                    assert(stripped[k] == e);
                }
                if policy.recompute_length {
                    assert(stripped.contains(e));
                }
                assert(h1.contains(e));
                let m = choose|m: int| 0 <= m < h1.len() && h1[m] == e;
                if m < resp.headers.len() {
                    assert(same_name(resp.headers[m].0, ct));
                }
            }
        }
    }
}

/// Where the policy recomputes the length, a content length after the policy
/// is never wrong: a body of known size has one, and each is the decimal form
/// of its byte count; a body of unknown size has none.
pub proof fn lemma_content_length_exact(resp: ResponseView, policy: HeaderPolicyView)
    requires
        policy.recompute_length,
    ensures
        has_name(finalized(resp, policy).headers, content_length()) == resp.sized,
        forall|e: (Seq<u8>, Seq<u8>)|
            same_name(e.0, content_length()) && #[trigger] finalized(resp, policy).headers.contains(
                e,
            ) ==> e.1 == digits(resp.body.len()),
{
    let h1 = with_content_type(resp.headers, policy);
    let out = finalized(resp, policy).headers;
    let cl = content_length();
    lemma_without_name(h1, cl);
    lemma_same_name_transitive(cl, cl, cl);
    let stripped = without_name(h1, cl);
    if resp.sized {
        assert(same_name(out[out.len() - 1].0, cl));
        assert forall|e: (Seq<u8>, Seq<u8>)|
            same_name(e.0, cl) && #[trigger] out.contains(e) implies e.1 == digits(
            resp.body.len(),
        ) by {
            let k = choose|k: int| 0 <= k < out.len() && out[k] == e;
            if k < stripped.len() {
                assert(stripped[k] == e);
                assert(stripped.contains(e));
            }
        }
    } else {
        assert forall|e: (Seq<u8>, Seq<u8>)|
            same_name(e.0, cl) && #[trigger] out.contains(e) implies e.1 == digits(
            resp.body.len(),
        ) by {
            assert(stripped.contains(e));
        }
    }
}

/// Asks `http::header::HeaderValue::from_bytes` whether it takes these bytes
/// as a header value. That function walks the bytes and refuses the first one
/// that is neither a tab nor at least a space and other than delete; it accepts
/// everything else, the empty value too. The contract states that test.
#[verifier::external_body]
fn value_accepted(value: &[u8]) -> (r: bool)
    ensures
        r == is_representable(value@),
{
    http::header::HeaderValue::from_bytes(value).is_ok()
}

/// The decimal form of a number, as a content length is written.
pub fn decimal(n: u64) -> (r: Vec<u8>)
    ensures
        r@ == digits(n as nat),
    decreases n,
{
    if n < 10 {
        let d: u8 = 48 + (n as u8);
        vec![d]
    } else {
        let mut out = decimal(n / 10);
        let d: u8 = 48 + ((n % 10) as u8);
        out.push(d);
        out
    }
}

impl HeaderPolicy {
    /// The policy of this server.
    pub fn standard() -> (r: HeaderPolicy)
        ensures
            r@ == standard_policy(),
    {
        let mut sensitive: Vec<Vec<u8>> = Vec::new();
        sensitive.push(authorization_bytes());
        sensitive.push(cookie_bytes());
        let r = HeaderPolicy {
            sensitive,
            default_content_type: text_plain_bytes(),
            recompute_length: true,
        };
        assert(r@.sensitive =~= standard_policy().sensitive);
        r
    }

    /// Whether a header of this name is sensitive.
    pub fn hides(&self, name: &[u8]) -> (r: bool)
        ensures
            r == is_sensitive(name@, self@.sensitive),
    {
        let mut i: usize = 0;
        while i < self.sensitive.len()
            invariant
                i <= self.sensitive.len(),
                forall|j: int| 0 <= j < i ==> !same_name(#[trigger] self@.sensitive[j], name@),
            decreases self.sensitive.len() - i,
        {
            if names_match(self.sensitive[i].as_slice(), name) {
                assert(same_name(self@.sensitive[i as int], name@));
                return true;
            }
            i = i + 1;
        }
        false
    }

    /// The header list as a log may see it. The list itself is not changed:
    /// the handler and the network get the real values.
    pub fn mask(&self, headers: &Headers) -> (r: Headers)
        ensures
            r@ == masked(headers@, self@.sensitive),
    {
        let mut out: Vec<Header> = Vec::new();
        let mut i: usize = 0;
        while i < headers.entries.len()
            invariant
                i <= headers.entries.len(),
                out@.len() == i,
                forall|j: int| 0 <= j < i ==> (#[trigger] out@[j])@ == masked(
                    headers@,
                    self@.sensitive,
                )[j],
            decreases headers.entries.len() - i,
        {
            let name = copy_bytes(headers.entries[i].name.as_slice());
            let value = if self.hides(headers.entries[i].name.as_slice()) {
                marker_bytes()
            } else {
                copy_bytes(headers.entries[i].value.as_slice())
            };
            out.push(Header { name, value });
            i = i + 1;
        }
        let r = Headers { entries: out };
        assert(r@ =~= masked(headers@, self@.sensitive));
        r
    }

    /// Applies the policy to an outgoing response: the default content type
    /// where none is named, then the content length.
    pub fn finalize(&self, resp: Response) -> (r: Response)
        ensures
            r@ == finalized(resp@, self@),
    {
        let Response { status, headers, body, sized } = resp;
        let typed = if value_accepted(self.default_content_type.as_slice()) {
            headers.or_insert(content_type_bytes().as_slice(), self.default_content_type.as_slice())
        } else {
            headers
        };
        let measured = if !self.recompute_length {
            typed
        } else if sized {
            let count = decimal(body.len() as u64);
            typed.set(content_length_bytes().as_slice(), count.as_slice())
        } else {
            typed.without(content_length_bytes().as_slice())
        };
        Response { status, headers: measured, body, sized }
    }
}

} // verus!
