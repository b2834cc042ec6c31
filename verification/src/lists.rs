//! Sequences of encoded items, written one after another.
use vstd::prelude::*;

verus! {

/// The views of the items of a sequence.
pub open spec fn views<T: View>(s: Seq<T>) -> Seq<T::V> {
    s.map_values(|x: T| x@)
}

/// The encodings of `items`, in order, one after another.
pub open spec fn seq_bytes<T>(items: Seq<T>, enc: spec_fn(T) -> Seq<u8>) -> Seq<u8>
    decreases items.len(),
{
    if items.len() == 0 {
        Seq::empty()
    } else {
        seq_bytes(items.drop_last(), enc) + enc(items.last())
    }
}

/// Reads `n` items one after another with the item parser `p`; fails as
/// soon as one item fails.
pub open spec fn parse_seq<T>(s: Seq<u8>, n: nat, p: spec_fn(Seq<u8>) -> Option<(T, Seq<u8>)>) -> Option<
    (Seq<T>, Seq<u8>),
>
    decreases n,
{
    if n == 0 {
        Some((Seq::empty(), s))
    } else {
        match parse_seq(s, (n - 1) as nat, p) {
            Some((items, r)) => match p(r) {
                Some((x, r2)) => Some((items.push(x), r2)),
                None => None,
            },
            None => None,
        }
    }
}

/// `p` is a strict prefix of `s`: shorter than `s`, and equal to its front.
pub open spec fn is_strict_prefix(p: Seq<u8>, s: Seq<u8>) -> bool {
    p.len() < s.len() && p == s.subrange(0, p.len() as int)
}

/// A strict prefix of `a + b` is either a strict prefix of `a`, or all of
/// `a` followed by a strict prefix of `b`.
pub proof fn lemma_split_prefix(p: Seq<u8>, a: Seq<u8>, b: Seq<u8>)
    requires
        is_strict_prefix(p, a + b),
    ensures
        is_strict_prefix(p, a) || (p == a + p.subrange(a.len() as int, p.len() as int)
            && is_strict_prefix(p.subrange(a.len() as int, p.len() as int), b)),
{
    if p.len() < a.len() {
        assert(p =~= a.subrange(0, p.len() as int));
    } else {
        let q = p.subrange(a.len() as int, p.len() as int);
        assert(p =~= a + q);
        assert(q =~= b.subrange(0, q.len() as int));
    }
}

/// Concatenation is associative.
pub proof fn lemma_assoc(a: Seq<u8>, b: Seq<u8>, c: Seq<u8>)
    ensures
        (a + b) + c == a + (b + c),
{
    assert((a + b) + c =~= a + (b + c));
}

pub proof fn lemma_seq_bytes_push<T>(items: Seq<T>, x: T, enc: spec_fn(T) -> Seq<u8>)
    ensures
        seq_bytes(items.push(x), enc) == seq_bytes(items, enc) + enc(x),
{
    assert(items.push(x).drop_last() =~= items);
}

pub proof fn lemma_take_push<T>(s: Seq<T>, i: int)
    requires
        0 <= i < s.len(),
    ensures
        s.take(i + 1) == s.take(i).push(s[i]),
{
    assert(s.take(i + 1) =~= s.take(i).push(s[i]));
}

pub proof fn lemma_views_push<T: View>(s: Seq<T>, x: T)
    ensures
        views(s.push(x)) == views(s).push(x@),
{
    assert(views(s.push(x)) =~= views(s).push(x@));
}

/// Once an item fails, reading more items fails too.
pub proof fn lemma_parse_seq_fails<T>(
    s: Seq<u8>,
    n: nat,
    m: nat,
    p: spec_fn(Seq<u8>) -> Option<(T, Seq<u8>)>,
)
    requires
        n <= m,
        parse_seq(s, n, p) is None,
    ensures
        parse_seq(s, m, p) is None,
    decreases m,
{
    if n < m {
        lemma_parse_seq_fails(s, n, (m - 1) as nat, p);
    }
}

/// Reading back items that were written one after another gives them back,
/// when each item reads back whatever follows it.
pub proof fn lemma_seq_roundtrip<T>(
    items: Seq<T>,
    enc: spec_fn(T) -> Seq<u8>,
    p: spec_fn(Seq<u8>) -> Option<(T, Seq<u8>)>,
    rest: Seq<u8>,
)
    requires
        forall|i: int, r: Seq<u8>|
            0 <= i < items.len() ==> #[trigger] p(enc(items[i]) + r) == Some((items[i], r)),
    ensures
        parse_seq(seq_bytes(items, enc) + rest, items.len(), p) == Some((items, rest)),
    decreases items.len(),
{
    if items.len() > 0 {
        let init = items.drop_last();
        let k = items.len() - 1;
        let last = items[k];
        let tail = enc(last) + rest;
        assert forall|i: int, r: Seq<u8>|
            0 <= i < init.len() implies #[trigger] p(enc(init[i]) + r) == Some((init[i], r)) by {
            assert(init[i] == items[i]);
            assert(p(enc(items[i]) + r) == Some((items[i], r)));
        }
        lemma_seq_roundtrip(init, enc, p, tail);
        assert(seq_bytes(items, enc) + rest =~= seq_bytes(init, enc) + tail);
        assert(p(enc(items[k]) + rest) == Some((items[k], rest)));
        assert(init.push(last) =~= items);
    }
}

/// A strict prefix of items written one after another does not read as
/// all of them, when no item reads from a strict prefix of its encoding.
pub proof fn lemma_seq_truncated<T>(
    items: Seq<T>,
    enc: spec_fn(T) -> Seq<u8>,
    p: spec_fn(Seq<u8>) -> Option<(T, Seq<u8>)>,
    q: Seq<u8>,
)
    requires
        is_strict_prefix(q, seq_bytes(items, enc)),
        forall|i: int, r: Seq<u8>|
            0 <= i < items.len() ==> #[trigger] p(enc(items[i]) + r) == Some((items[i], r)),
        forall|i: int, r: Seq<u8>|
            0 <= i < items.len() && #[trigger] is_strict_prefix(r, enc(items[i])) ==> p(r) is None,
    ensures
        parse_seq(q, items.len(), p) is None,
    decreases items.len(),
{
    if items.len() > 0 {
        let init = items.drop_last();
        let k = items.len() - 1;
        assert(seq_bytes(items, enc) == seq_bytes(init, enc) + enc(items[k]));
        lemma_split_prefix(q, seq_bytes(init, enc), enc(items[k]));
        assert forall|i: int, r: Seq<u8>|
            0 <= i < init.len() implies #[trigger] p(enc(init[i]) + r) == Some((init[i], r)) by {
            assert(init[i] == items[i]);
            assert(p(enc(items[i]) + r) == Some((items[i], r)));
        }
        if is_strict_prefix(q, seq_bytes(init, enc)) {
            assert forall|i: int, r: Seq<u8>|
                0 <= i < init.len() && #[trigger] is_strict_prefix(r, enc(init[i])) implies p(r) is None by {
                assert(init[i] == items[i]);
                assert(is_strict_prefix(r, enc(items[i])));
            }
            lemma_seq_truncated(init, enc, p, q);
        } else {
            let q2 = q.subrange(seq_bytes(init, enc).len() as int, q.len() as int);
            lemma_seq_roundtrip(init, enc, p, q2);
            assert(is_strict_prefix(q2, enc(items[k])));
            assert(p(q2) is None);
        }
    }
}

} // verus!
