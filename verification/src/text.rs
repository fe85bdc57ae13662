//! Byte strings in dictionary order, as `str` compares them: byte by byte over
//! the UTF-8 encoding.

use vstd::prelude::*;

verus! {

/// How one byte string stands to another in dictionary order.
#[derive(Clone, Copy, Debug, PartialEq, Eq, Structural)]
pub enum Placement {
    Before,
    Same,
    After,
}

/// `a` and `b` hold the same bytes at every position below `k`.
pub open spec fn agree_until(a: Seq<u8>, b: Seq<u8>, k: int) -> bool {
    &&& 0 <= k <= a.len()
    &&& k <= b.len()
    &&& forall|j: int| 0 <= j < k ==> a[j] == b[j]
}

/// `k` is the first position at which `a` and `b` differ, or the length of
/// the shorter one when it is a prefix of the other.
pub open spec fn first_difference(a: Seq<u8>, b: Seq<u8>, k: int) -> bool {
    &&& agree_until(a, b, k)
    &&& (k < a.len() && k < b.len() ==> a[k] != b[k])
}

/// `a` comes strictly before `b` in dictionary order.
pub open spec fn lex_lt(a: Seq<u8>, b: Seq<u8>) -> bool {
    exists|k: int| #[trigger]
        first_difference(a, b, k) && k < b.len() && (k == a.len() || a[k] < b[k])
}

/// `a` comes before `b` or is `b`.
pub open spec fn lex_le(a: Seq<u8>, b: Seq<u8>) -> bool {
    a == b || lex_lt(a, b)
}

proof fn lemma_scan(a: Seq<u8>, b: Seq<u8>, i: int) -> (k: int)
    requires
        agree_until(a, b, i),
    ensures
        first_difference(a, b, k),
    decreases a.len() - i,
{
    if i < a.len() && i < b.len() && a[i] == b[i] {
        lemma_scan(a, b, i + 1)
    } else {
        i
    }
}

/// Any two byte strings have a first difference.
pub proof fn lemma_first_difference_exists(a: Seq<u8>, b: Seq<u8>) -> (k: int)
    ensures
        first_difference(a, b, k),
{
    lemma_scan(a, b, 0)
}

/// The first difference of two byte strings is one position.
pub proof fn lemma_first_difference_unique(a: Seq<u8>, b: Seq<u8>, k1: int, k2: int)
    requires
        first_difference(a, b, k1),
        first_difference(a, b, k2),
    ensures
        k1 == k2,
{
    if k1 < k2 {
        assert(a[k1] == b[k1]);
    } else if k2 < k1 {
        assert(a[k2] == b[k2]);
    }
}

/// Of two byte strings exactly one holds: the first comes before the second,
/// they are equal, or the second comes before the first.
pub proof fn lemma_lex_trichotomy(a: Seq<u8>, b: Seq<u8>)
    ensures
        lex_lt(a, b) || a == b || lex_lt(b, a),
        !(lex_lt(a, b) && a == b),
        !(lex_lt(a, b) && lex_lt(b, a)),
        !(lex_lt(b, a) && a == b),
{
    let k = lemma_first_difference_exists(a, b);
    assert(first_difference(b, a, k));
    if k == a.len() && k == b.len() {
        assert(a =~= b);
    }
    if lex_lt(a, b) {
        let k1 = choose|k1: int| #[trigger]
            first_difference(a, b, k1) && k1 < b.len() && (k1 == a.len() || a[k1] < b[k1]);
        lemma_first_difference_unique(a, b, k, k1);
    }
    if lex_lt(b, a) {
        let k2 = choose|k2: int| #[trigger]
            first_difference(b, a, k2) && k2 < a.len() && (k2 == b.len() || b[k2] < a[k2]);
        lemma_first_difference_unique(b, a, k, k2);
    }
}

/// Dictionary order is transitive.
pub proof fn lemma_lex_transitive(a: Seq<u8>, b: Seq<u8>, c: Seq<u8>)
    requires
        lex_lt(a, b),
        lex_lt(b, c),
    ensures
        lex_lt(a, c),
{
    let k1 = choose|k1: int| #[trigger]
        first_difference(a, b, k1) && k1 < b.len() && (k1 == a.len() || a[k1] < b[k1]);
    let k2 = choose|k2: int| #[trigger]
        first_difference(b, c, k2) && k2 < c.len() && (k2 == b.len() || b[k2] < c[k2]);
    if k1 <= k2 {
        assert(first_difference(a, c, k1));
    } else {
        assert(a[k2] == b[k2]);
        assert(first_difference(a, c, k2));
    }
}

/// A prefix comes before what it is a prefix of, or is it.
pub proof fn lemma_prefix_is_le(p: Seq<u8>, s: Seq<u8>)
    requires
        p.is_prefix_of(s),
    ensures
        lex_le(p, s),
        !lex_lt(s, p),
{
    assert(first_difference(p, s, p.len() as int));
    if p.len() == s.len() {
        assert(p =~= s);
    }
    lemma_lex_trichotomy(p, s);
}

/// Whatever lies between a prefix and a string that starts with it starts
/// with it too.
pub proof fn lemma_between_has_prefix(p: Seq<u8>, m: Seq<u8>, s: Seq<u8>)
    requires
        p.is_prefix_of(s),
        lex_le(p, m),
        lex_le(m, s),
    ensures
        p.is_prefix_of(m),
{
    let k = lemma_first_difference_exists(p, m);
    lemma_lex_trichotomy(p, m);
    lemma_lex_trichotomy(m, s);
    if k == p.len() {
        assert(p =~= m.subrange(0, p.len() as int));
    } else if k == m.len() {
        assert(first_difference(m, p, k));
        assert(lex_lt(m, p));
    } else if m[k] < p[k] {
        assert(first_difference(m, p, k));
        assert(lex_lt(m, p));
    } else {
        assert forall|j: int| 0 <= j < p.len() implies p[j] == s[j] by {
            assert(p[j] == s.subrange(0, p.len() as int)[j]);
        }
        assert(first_difference(s, m, k));
        assert(lex_lt(s, m));
    }
}

/// Of two prefixes of one string, the one that is not longer is a prefix of
/// the other.
pub proof fn lemma_prefixes_nest(p: Seq<u8>, q: Seq<u8>, s: Seq<u8>)
    requires
        p.is_prefix_of(s),
        q.is_prefix_of(s),
        p.len() <= q.len(),
    ensures
        p.is_prefix_of(q),
{
    assert forall|j: int| 0 <= j < p.len() implies p[j] == q[j] by {
        assert(p[j] == s.subrange(0, p.len() as int)[j]);
        assert(q[j] == s.subrange(0, q.len() as int)[j]);
    }
    assert(p =~= q.subrange(0, p.len() as int));
}

/// Whether `text` starts with `prefix`.
pub fn starts_with_bytes(text: &[u8], prefix: &[u8]) -> (r: bool)
    ensures
        r == prefix@.is_prefix_of(text@),
{
    if prefix.len() > text.len() {
        return false;
    }
    let mut i: usize = 0;
    while i < prefix.len()
        invariant
            prefix.len() <= text.len(),
            agree_until(prefix@, text@, i as int),
        decreases prefix.len() - i,
    {
        if prefix[i] != text[i] {
            assert(prefix@[i as int] != text@.subrange(0, prefix@.len() as int)[i as int]);
            return false;
        }
        i += 1;
    }
    assert(prefix@ =~= text@.subrange(0, prefix@.len() as int));
    true
}

/// Where `a` stands to `b` in dictionary order.
pub fn compare_bytes(a: &[u8], b: &[u8]) -> (r: Placement)
    ensures
        r == Placement::Before <==> lex_lt(a@, b@),
        r == Placement::Same <==> a@ == b@,
        r == Placement::After <==> lex_lt(b@, a@),
{
    let mut i: usize = 0;
    while i < a.len() && i < b.len() && a[i] == b[i]
        invariant
            agree_until(a@, b@, i as int),
        decreases a.len() - i,
    {
        i += 1;
    }
    proof {
        lemma_lex_trichotomy(a@, b@);
        assert(first_difference(a@, b@, i as int));
        assert(first_difference(b@, a@, i as int));
    }
    if i == a.len() {
        if i == b.len() {
            assert(a@ =~= b@);
            Placement::Same
        } else {
            Placement::Before
        }
    } else if i == b.len() {
        Placement::After
    } else if a[i] < b[i] {
        Placement::Before
    } else {
        Placement::After
    }
}

} // verus!
