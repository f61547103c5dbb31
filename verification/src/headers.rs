//! Header collections: ordered, names compared without regard to ASCII case,
//! names may repeat.

use vstd::prelude::*;

verus! {

/// The mathematical model of a header list: name and value of each entry, in order.
pub type HeaderSeq = Seq<(Seq<u8>, Seq<u8>)>;

/// ASCII lower-case form of one byte.
pub open spec fn fold(b: u8) -> u8 {
    if 65 <= b && b <= 90 {
        (b + 32) as u8
    } else {
        b
    }
}

/// Two header names are the same when they agree byte for byte after ASCII case folding.
pub open spec fn same_name(a: Seq<u8>, b: Seq<u8>) -> bool {
    a.len() == b.len() && forall|i: int| 0 <= i < a.len() ==> fold(#[trigger] a[i]) == fold(b[i])
}

/// Some entry of `hs` carries the name `name`.
pub open spec fn has_name(hs: HeaderSeq, name: Seq<u8>) -> bool {
    exists|i: int| 0 <= i < hs.len() && same_name((#[trigger] hs[i]).0, name)
}

/// Entry `i` is the first of `hs` that carries the name `name`.
pub open spec fn is_first(hs: HeaderSeq, name: Seq<u8>, i: int) -> bool {
    &&& 0 <= i < hs.len()
    &&& same_name(hs[i].0, name)
    &&& forall|j: int| 0 <= j < i ==> !same_name((#[trigger] hs[j]).0, name)
}

/// `hs` without the entries named `name`; the others keep their order.
pub open spec fn without_name(hs: HeaderSeq, name: Seq<u8>) -> HeaderSeq
    decreases hs.len(),
{
    if hs.len() == 0 {
        Seq::empty()
    } else if same_name(hs.last().0, name) {
        without_name(hs.drop_last(), name)
    } else {
        without_name(hs.drop_last(), name).push(hs.last())
    }
}

/// `hs` with every entry named `name` replaced by a single entry at the end.
pub open spec fn with_value(hs: HeaderSeq, name: Seq<u8>, value: Seq<u8>) -> HeaderSeq {
    without_name(hs, name).push((name, value))
}

/// `hs` itself where the name is present, else `hs` with the entry appended.
pub open spec fn with_default(hs: HeaderSeq, name: Seq<u8>, value: Seq<u8>) -> HeaderSeq {
    if has_name(hs, name) {
        hs
    } else {
        hs.push((name, value))
    }
}

/// Removing a name leaves no entry of that name and keeps every other entry.
pub proof fn lemma_without_name(hs: HeaderSeq, name: Seq<u8>)
    ensures
        !has_name(without_name(hs, name), name),
        without_name(hs, name).len() <= hs.len(),
        forall|other: Seq<u8>|
            !same_name(other, name) && has_name(hs, other) ==> #[trigger] has_name(
                without_name(hs, name),
                other,
            ),
        forall|e: (Seq<u8>, Seq<u8>)| #[trigger]
            without_name(hs, name).contains(e) <==> hs.contains(e) && !same_name(e.0, name),
    decreases hs.len(),
{
    if hs.len() > 0 {
        let front = hs.drop_last();
        lemma_without_name(front, name);
        let out = without_name(hs, name);
        let prev = without_name(front, name);
        assert forall|e: (Seq<u8>, Seq<u8>)| hs.contains(e) && !same_name(e.0, name) implies
            #[trigger] out.contains(e) by {
            let k = choose|k: int| 0 <= k < hs.len() && hs[k] == e;
            if k < front.len() {
                assert(front[k] == e);
                assert(front.contains(e));
                assert(prev.contains(e));
                let m = choose|m: int| 0 <= m < prev.len() && prev[m] == e;
                assert(out[m] == e);
            } else {
                assert(out[out.len() - 1] == e);
            }
        }
        assert forall|e: (Seq<u8>, Seq<u8>)| #[trigger] out.contains(e) implies hs.contains(e)
            && !same_name(e.0, name) by {
            let k = choose|k: int| 0 <= k < out.len() && out[k] == e;
            if k < prev.len() {
                assert(prev[k] == e);
                assert(prev.contains(e));
                let m = choose|m: int| 0 <= m < front.len() && front[m] == e;
                assert(hs[m] == e);
            } else {
                assert(e == hs.last());
                assert(hs[hs.len() - 1] == e);
            }
        }
        assert(!has_name(out, name)) by {
            if has_name(out, name) {
                let k = choose|k: int| 0 <= k < out.len() && same_name((#[trigger] out[k]).0, name);
                assert(out.contains(out[k]));
            }
        }
        assert forall|other: Seq<u8>| !same_name(other, name) && has_name(hs, other) implies
            #[trigger] has_name(out, other) by {
            let k = choose|k: int| 0 <= k < hs.len() && same_name((#[trigger] hs[k]).0, other);
            if k < front.len() {
                assert(front[k] == hs[k]);
                assert(has_name(front, other));
                assert(has_name(without_name(front, name), other));
                let m = choose|m: int| 0 <= m < prev.len() && same_name((#[trigger] prev[m]).0, other);
                assert(out[m] == prev[m]);
            } else {
                lemma_same_name_transitive(hs[k].0, other, name);
                assert(!same_name(hs.last().0, name));
                assert(out[out.len() - 1] == hs.last());
            }
        }
    }
}

/// Sameness of names is symmetric and transitive.
pub proof fn lemma_same_name_transitive(a: Seq<u8>, b: Seq<u8>, c: Seq<u8>)
    ensures
        same_name(a, a),
        same_name(a, b) == same_name(b, a),
        same_name(a, b) && same_name(b, c) ==> same_name(a, c),
        same_name(a, b) && !same_name(b, c) ==> !same_name(a, c),
{
    if same_name(a, b) {
        assert forall|i: int| 0 <= i < b.len() implies fold(#[trigger] b[i]) == fold(a[i]) by {
            assert(fold(a[i]) == fold(b[i]));
        }
        if same_name(b, c) {
            assert forall|i: int| 0 <= i < a.len() implies fold(#[trigger] a[i]) == fold(c[i]) by {
                assert(fold(a[i]) == fold(b[i]));
                assert(fold(b[i]) == fold(c[i]));
            }
        }
        if same_name(a, c) {
            assert forall|i: int| 0 <= i < b.len() implies fold(#[trigger] b[i]) == fold(c[i]) by {
                assert(fold(a[i]) == fold(b[i]));
                assert(fold(a[i]) == fold(c[i]));
            }
        }
    }
    if same_name(b, a) {
        assert forall|i: int| 0 <= i < a.len() implies fold(#[trigger] a[i]) == fold(b[i]) by {
            assert(fold(b[i]) == fold(a[i]));
        }
    }
}

/// ASCII lower-case form of one byte.
pub fn fold_byte(b: u8) -> (r: u8)
    ensures
        r == fold(b),
{
    if 65 <= b && b <= 90 {
        b + 32
    } else {
        b
    }
}

/// Whether two names are the same without regard to ASCII case.
pub fn names_match(a: &[u8], b: &[u8]) -> (r: bool)
    ensures
        r == same_name(a@, b@),
{
    if a.len() != b.len() {
        return false;
    }
    let mut i: usize = 0;
    while i < a.len()
        invariant
            a.len() == b.len(),
            i <= a.len(),
            forall|j: int| 0 <= j < i ==> fold(#[trigger] a@[j]) == fold(b@[j]),
        decreases a.len() - i,
    {
        if fold_byte(a[i]) != fold_byte(b[i]) {
            return false;
        }
        i = i + 1;
    }
    true
}

/// A fresh vector holding the bytes of `s`.
pub fn copy_bytes(s: &[u8]) -> (r: Vec<u8>)
    ensures
        r@ == s@,
{
    let mut out: Vec<u8> = Vec::new();
    let mut i: usize = 0;
    while i < s.len()
        invariant
            i <= s.len(),
            out@ == s@.take(i as int),
        decreases s.len() - i,
    {
        out.push(s[i]);
        assert(s@.take(i + 1) == s@.take(i as int).push(s@[i as int]));
        i = i + 1;
    }
    assert(s@.take(s.len() as int) == s@);
    out
}

/// One header: a name and a value, both as bytes.
pub struct Header {
    pub name: Vec<u8>,
    pub value: Vec<u8>,
}

impl View for Header {
    type V = (Seq<u8>, Seq<u8>);

    open spec fn view(&self) -> (Seq<u8>, Seq<u8>) {
        (self.name@, self.value@)
    }
}

/// An ordered list of headers.
pub struct Headers {
    pub entries: Vec<Header>,
}

impl View for Headers {
    type V = HeaderSeq;

    open spec fn view(&self) -> HeaderSeq {
        Seq::new(self.entries@.len(), |i: int| self.entries@[i]@)
    }
}

impl Headers {
    /// The empty list.
    pub fn new() -> (r: Headers)
        ensures
            r@ == Seq::<(Seq<u8>, Seq<u8>)>::empty(),
    {
        let r = Headers { entries: Vec::new() };
        assert(r@ =~= Seq::<(Seq<u8>, Seq<u8>)>::empty());
        r
    }

    /// Number of entries, repeated names counted each time.
    pub fn len(&self) -> (n: usize)
        ensures
            n == self@.len(),
    {
        self.entries.len()
    }

    /// The list with one more entry at its end.
    pub fn append(self, name: &[u8], value: &[u8]) -> (r: Headers)
        ensures
            r@ == self@.push((name@, value@)),
    {
        let mut entries = self.entries;
        entries.push(Header { name: copy_bytes(name), value: copy_bytes(value) });
        let r = Headers { entries };
        assert(r@ =~= self@.push((name@, value@)));
        r
    }

    /// Whether some entry carries this name.
    pub fn contains(&self, name: &[u8]) -> (r: bool)
        ensures
            r == has_name(self@, name@),
    {
        let mut i: usize = 0;
        while i < self.entries.len()
            invariant
                i <= self.entries.len(),
                forall|j: int| 0 <= j < i ==> !same_name((#[trigger] self@[j]).0, name@),
            decreases self.entries.len() - i,
        {
            if names_match(self.entries[i].name.as_slice(), name) {
                assert(same_name(self@[i as int].0, name@));
                return true;
            }
            i = i + 1;
        }
        false
    }

    /// The value of the first entry that carries this name.
    pub fn get(&self, name: &[u8]) -> (r: Option<Vec<u8>>)
        ensures
            r is Some <==> has_name(self@, name@),
            r is Some ==> exists|i: int| is_first(self@, name@, i) && r->0@ == self@[i].1,
    {
        let mut i: usize = 0;
        while i < self.entries.len()
            invariant
                i <= self.entries.len(),
                forall|j: int| 0 <= j < i ==> !same_name((#[trigger] self@[j]).0, name@),
            decreases self.entries.len() - i,
        {
            if names_match(self.entries[i].name.as_slice(), name) {
                assert(is_first(self@, name@, i as int));
                return Some(copy_bytes(self.entries[i].value.as_slice()));
            }
            i = i + 1;
        }
        None
    }

    /// A copy of the list.
    pub fn duplicate(&self) -> (r: Headers)
        ensures
            r@ == self@,
    {
        let mut out: Vec<Header> = Vec::new();
        let mut i: usize = 0;
        while i < self.entries.len()
            invariant
                i <= self.entries.len(),
                out@.len() == i,
                forall|j: int| 0 <= j < i ==> (#[trigger] out@[j])@ == self@[j],
            decreases self.entries.len() - i,
        {
            out.push(
                Header {
                    name: copy_bytes(self.entries[i].name.as_slice()),
                    value: copy_bytes(self.entries[i].value.as_slice()),
                },
            );
            i = i + 1;
        }
        let r = Headers { entries: out };
        assert(r@ =~= self@);
        r
    }

    /// The list without the entries of this name.
    pub fn without(&self, name: &[u8]) -> (r: Headers)
        ensures
            r@ == without_name(self@, name@),
    {
        let mut out: Vec<Header> = Vec::new();
        let mut i: usize = 0;
        while i < self.entries.len()
            invariant
                i <= self.entries.len(),
                Seq::new(out@.len(), |k: int| out@[k]@) == without_name(self@.take(i as int), name@),
            decreases self.entries.len() - i,
        {
            let ghost before = Seq::new(out@.len(), |k: int| out@[k]@);
            assert(self@.take(i + 1).drop_last() == self@.take(i as int));
            assert(self@.take(i + 1).last() == self@[i as int]);
            if !names_match(self.entries[i].name.as_slice(), name) {
                out.push(
                    Header {
                        name: copy_bytes(self.entries[i].name.as_slice()),
                        value: copy_bytes(self.entries[i].value.as_slice()),
                    },
                );
                assert(Seq::new(out@.len(), |k: int| out@[k]@) =~= before.push(self@[i as int]));
            }
            i = i + 1;
        }
        assert(self@.take(self.entries.len() as int) == self@);
        Headers { entries: out }
    }

    /// The list with exactly one entry of this name, placed last.
    pub fn set(&self, name: &[u8], value: &[u8]) -> (r: Headers)
        ensures
            r@ == with_value(self@, name@, value@),
    {
        self.without(name).append(name, value)
    }

    /// The list unchanged where the name is present, else with the entry appended.
    pub fn or_insert(self, name: &[u8], value: &[u8]) -> (r: Headers)
        ensures
            r@ == with_default(self@, name@, value@),
    {
        if self.contains(name) {
            self
        } else {
            self.append(name, value)
        }
    }
}

} // verus!
