//! The compression layer's decisions: which coding a request allows, whether
//! a response is to be coded, and what the coded response looks like. The
//! coding of the bytes themselves is done outside and handed in.

use vstd::prelude::*;
use crate::headers::{fold, fold_byte, has_name, names_match, same_name, with_value, without_name, HeaderSeq, Headers};
use crate::message::{Response, ResponseView};
use crate::names::{
    accept_encoding, accept_encoding_bytes, brotli, brotli_bytes, content_encoding,
    content_encoding_bytes, content_length, content_length_bytes, deflate, deflate_bytes, gzip,
    gzip_bytes,
};

verus! {

/// The byte `,`, which parts the elements of a list.
pub const COMMA: u8 = 44;

/// The byte `;`, which parts a coding from its parameters.
pub const SEMICOLON: u8 = 59;

/// The space.
pub const SPACE: u8 = 32;

/// The horizontal tab.
pub const TAB: u8 = 9;

/// How a response body is coded for the wire.
#[derive(Clone, Copy, Debug, PartialEq, Eq, Structural)]
pub enum Encoding {
    /// As it is.
    Identity,
    Gzip,
    Deflate,
    Brotli,
}

/// The name under which a coding stands in `content-encoding`.
pub open spec fn coding_name(encoding: Encoding) -> Seq<u8> {
    match encoding {
        Encoding::Identity => seq![105u8, 100u8, 101u8, 110u8, 116u8, 105u8, 116u8, 121u8],
        Encoding::Gzip => gzip(),
        Encoding::Deflate => deflate(),
        Encoding::Brotli => brotli(),
    }
}

/// Space or tab.
pub open spec fn is_blank(b: u8) -> bool {
    b == SPACE || b == TAB
}

/// The first position at or after `from` that holds no blank; the end of
/// `value` where only blanks follow.
pub open spec fn skip_blanks(value: Seq<u8>, from: int) -> int
    decreases value.len() - from,
{
    if 0 <= from < value.len() && is_blank(value[from]) {
        skip_blanks(value, from + 1)
    } else {
        from
    }
}

/// `token` stands at position `at` of `value`, compared without regard to case.
pub open spec fn token_stands_at(value: Seq<u8>, at: int, token: Seq<u8>) -> bool {
    0 <= at && at + token.len() <= value.len() && same_name(
        value.subrange(at, at + token.len()),
        token,
    )
}

/// A list element begins at `start`: at the front of the value or right after a comma.
pub open spec fn is_element_start(value: Seq<u8>, start: int) -> bool {
    0 <= start <= value.len() && (start == 0 || value[start - 1] == COMMA)
}

/// The element that begins at `start` names the coding `token`: after blanks
/// comes the token, and after it, past blanks, the value ends or a comma or a
/// semicolon stands. Parameters behind the semicolon are not read.
pub open spec fn element_names(value: Seq<u8>, start: int, token: Seq<u8>) -> bool {
    let at = skip_blanks(value, start);
    let end = skip_blanks(value, at + token.len());
    &&& token_stands_at(value, at, token)
    &&& (end == value.len() || value[end] == COMMA || value[end] == SEMICOLON)
}

/// Some element of the comma-separated `value` names the coding `token`.
pub open spec fn lists(value: Seq<u8>, token: Seq<u8>) -> bool {
    exists|start: int| is_element_start(value, start) && #[trigger] element_names(value, start, token)
}

/// Some `accept-encoding` header of the request lists the coding `token`.
pub open spec fn accepts(hs: HeaderSeq, token: Seq<u8>) -> bool {
    exists|i: int|
        0 <= i < hs.len() && same_name((#[trigger] hs[i]).0, accept_encoding()) && lists(
            hs[i].1,
            token,
        )
}

/// The coding that a request allows, by the server's preference: gzip, then
/// Brotli, then deflate; none of them listed means no coding.
pub open spec fn negotiated(hs: HeaderSeq) -> Encoding {
    if accepts(hs, gzip()) {
        Encoding::Gzip
    } else if accepts(hs, brotli()) {
        Encoding::Brotli
    } else if accepts(hs, deflate()) {
        Encoding::Deflate
    } else {
        Encoding::Identity
    }
}

/// The coding to apply to a response: none for an empty body or a body that
/// is coded already, else what the request allows.
pub open spec fn planned(request_headers: HeaderSeq, resp: ResponseView) -> Encoding {
    if resp.body.len() == 0 || has_name(resp.headers, content_encoding()) {
        Encoding::Identity
    } else {
        negotiated(request_headers)
    }
}

/// The response after the compression layer. Without a coding it is
/// unchanged. With one, the body is the coded bytes, `content-encoding` names
/// the coding, and the content length of the uncoded body is gone.
pub open spec fn encoded(resp: ResponseView, encoding: Encoding, coded: Seq<u8>) -> ResponseView {
    if encoding == Encoding::Identity {
        resp
    } else {
        ResponseView {
            status: resp.status,
            headers: with_value(
                without_name(resp.headers, content_length()),
                content_encoding(),
                coding_name(encoding),
            ),
            body: coded,
            sized: resp.sized,
        }
    }
}

impl Encoding {
    /// The name under which the coding stands in `content-encoding`.
    pub fn name(&self) -> (r: Vec<u8>)
        ensures
            r@ == coding_name(*self),
    {
        match self {
            Encoding::Identity => vec![105u8, 100u8, 101u8, 110u8, 116u8, 105u8, 116u8, 121u8],
            Encoding::Gzip => gzip_bytes(),
            Encoding::Deflate => deflate_bytes(),
            Encoding::Brotli => brotli_bytes(),
        }
    }
}

/// The first position at or after `from` that holds neither space nor tab;
/// `from` itself where it lies behind the end.
pub fn skip_blank_bytes(value: &[u8], from: usize) -> (r: usize)
    ensures
        r == skip_blanks(value@, from as int),
        from <= r,
        from <= value@.len() ==> r <= value@.len(),
{
    if from >= value.len() {
        return from;
    }
    let mut i: usize = from;
    while i < value.len() && (value[i] == SPACE || value[i] == TAB)
        invariant
            from <= i <= value@.len(),
            skip_blanks(value@, from as int) == skip_blanks(value@, i as int),
        decreases value.len() - i,
    {
        i = i + 1;
    }
    i
}

/// Whether `token` stands at position `at`, compared without regard to case.
pub fn token_at(value: &[u8], at: usize, token: &[u8]) -> (r: bool)
    ensures
        r == token_stands_at(value@, at as int, token@),
{
    if at > value.len() || token.len() > value.len() - at {
        return false;
    }
    let ghost part = value@.subrange(at as int, at + token.len());
    let mut i: usize = 0;
    while i < token.len()
        invariant
            at + token.len() <= value.len(),
            i <= token.len(),
            part == value@.subrange(at as int, at + token.len()),
            forall|j: int| 0 <= j < i ==> fold(#[trigger] part[j]) == fold(token@[j]),
        decreases token.len() - i,
    {
        if fold_byte(value[at + i]) != fold_byte(token[i]) {
            assert(part[i as int] == value@[at + i]);
            return false;
        }
        assert(part[i as int] == value@[at + i]);
        i = i + 1;
    }
    true
}

/// Whether the element that begins at `start` names the coding `token`.
pub fn names_coding(value: &[u8], start: usize, token: &[u8]) -> (r: bool)
    ensures
        r == element_names(value@, start as int, token@),
{
    let total: usize = value.len();
    let at = skip_blank_bytes(value, start);
    if !token_at(value, at, token) {
        return false;
    }
    assert(at + token@.len() <= total);
    let end = skip_blank_bytes(value, at + token.len());
    end == value.len() || value[end] == COMMA || value[end] == SEMICOLON
}

/// Whether some element of a comma-separated header value names the coding.
pub fn lists_coding(value: &[u8], token: &[u8]) -> (r: bool)
    ensures
        r == lists(value@, token@),
{
    let mut start: usize = 0;
    loop
        invariant
            start <= value@.len(),
            is_element_start(value@, start as int),
            forall|s: int|
                0 <= s < start && is_element_start(value@, s) ==> !#[trigger] element_names(
                    value@,
                    s,
                    token@,
                ),
        decreases value@.len() - start,
    {
        if names_coding(value, start, token) {
            return true;
        }
        let mut i: usize = start;
        while i < value.len() && value[i] != COMMA
            invariant
                start <= i <= value@.len(),
                forall|j: int| start <= j < i ==> #[trigger] value@[j] != COMMA,
            decreases value.len() - i,
        {
            i = i + 1;
        }
        if i >= value.len() {
            assert forall|s: int| is_element_start(value@, s) implies !#[trigger] element_names(
                value@,
                s,
                token@,
            ) by {
                if s > start {
                    assert(value@[s - 1] != COMMA);
                }
            }
            return false;
        }
        assert forall|s: int| 0 <= s < i + 1 && is_element_start(value@, s) implies !#[trigger] element_names(
            value@,
            s,
            token@,
        ) by {
            if s > start {
                assert(value@[s - 1] != COMMA);
            }
        }
        start = i + 1;
    }
}

/// Whether some `accept-encoding` header of the list names the coding.
pub fn accepts_coding(headers: &Headers, token: &[u8]) -> (r: bool)
    ensures
        r == accepts(headers@, token@),
{
    let name = accept_encoding_bytes();
    let mut i: usize = 0;
    while i < headers.entries.len()
        invariant
            i <= headers.entries.len(),
            name@ == accept_encoding(),
            forall|j: int|
                0 <= j < i ==> !(same_name((#[trigger] headers@[j]).0, accept_encoding()) && lists(
                    headers@[j].1,
                    token@,
                )),
        decreases headers.entries.len() - i,
    {
        if names_match(headers.entries[i].name.as_slice(), name.as_slice()) && lists_coding(
            headers.entries[i].value.as_slice(),
            token,
        ) {
            assert(same_name(headers@[i as int].0, accept_encoding()) && lists(
                headers@[i as int].1,
                token@,
            ));
            return true;
        }
        i = i + 1;
    }
    false
}

/// The coding that the request headers allow.
pub fn negotiate(headers: &Headers) -> (r: Encoding)
    ensures
        r == negotiated(headers@),
{
    if accepts_coding(headers, gzip_bytes().as_slice()) {
        Encoding::Gzip
    } else if accepts_coding(headers, brotli_bytes().as_slice()) {
        Encoding::Brotli
    } else if accepts_coding(headers, deflate_bytes().as_slice()) {
        Encoding::Deflate
    } else {
        Encoding::Identity
    }
}

/// The coding to apply to this response for this request.
pub fn plan(request_headers: &Headers, resp: &Response) -> (r: Encoding)
    ensures
        r == planned(request_headers@, resp@),
{
    if resp.body.len() == 0 || resp.headers.contains(content_encoding_bytes().as_slice()) {
        Encoding::Identity
    } else {
        negotiate(request_headers)
    }
}

/// Puts the coded body into the response. `coded` is the body as the chosen
/// coding turned it out; with `Encoding::Identity` it is not looked at.
pub fn encode(resp: Response, encoding: Encoding, coded: Vec<u8>) -> (r: Response)
    ensures
        r@ == encoded(resp@, encoding, coded@),
{
    match encoding {
        Encoding::Identity => resp,
        _ => {
            let Response { status, headers, body: _, sized } = resp;
            let headers = headers.without(content_length_bytes().as_slice()).set(
                content_encoding_bytes().as_slice(),
                encoding.name().as_slice(),
            );
            Response { status, headers, body: coded, sized }
        },
    }
}

} // verus!
