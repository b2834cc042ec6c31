use vstd::prelude::*;

use crate::lists::{is_strict_prefix, lemma_seq_roundtrip, lemma_seq_truncated, parse_seq, seq_bytes};
use crate::primitives::{be_value, lemma_be_value_bound, pow256};

verus! {

/// Copies a slice of exactly `N` bytes into an array.
fn array_from_slice<const N: usize>(s: &[u8]) -> (a: [u8; N])
    requires
        s@.len() == N,
    ensures
        a@ == s@,
{
    let mut a = [0u8; N];
    let mut i: usize = 0;
    while i < N
        invariant
            i <= N,
            s@.len() == N,
            forall|j: int| 0 <= j < i ==> a@[j] == s@[j],
        decreases N - i,
    {
        a[i] = s[i];
        i = i + 1;
    }
    assert(a@ =~= s@);
    a
}

/// A 20-byte account address.
#[derive(Debug, Clone, Copy, PartialEq, Eq)]
pub struct Address(pub [u8; 20]);

/// A 32-byte hash.
#[derive(Debug, Clone, Copy, PartialEq, Eq)]
pub struct H256(pub [u8; 32]);

/// A 256-byte logs bloom filter.
#[derive(Debug, Clone, Copy, PartialEq, Eq)]
pub struct Bloom(pub [u8; 256]);

/// An unsigned 256-bit integer, held as its 32 big-endian bytes.
#[derive(Debug, Clone, Copy, PartialEq, Eq)]
pub struct U256(pub [u8; 32]);

impl View for Address {
    type V = Seq<u8>;

    open spec fn view(&self) -> Seq<u8> {
        self.0@
    }
}

impl View for H256 {
    type V = Seq<u8>;

    open spec fn view(&self) -> Seq<u8> {
        self.0@
    }
}

impl View for Bloom {
    type V = Seq<u8>;

    open spec fn view(&self) -> Seq<u8> {
        self.0@
    }
}

impl View for U256 {
    type V = nat;

    open spec fn view(&self) -> nat {
        be_value(self.0@)
    }
}

impl Address {
    /// Builds an address from exactly 20 bytes.
    pub fn from_slice(s: &[u8]) -> (a: Address)
        requires
            s@.len() == 20,
        ensures
            a@ == s@,
    {
        Address(array_from_slice(s))
    }

    pub fn as_bytes(&self) -> (s: &[u8])
        ensures
            s@ == self@,
    {
        self.0.as_slice()
    }
}

impl H256 {
    /// Builds a hash from exactly 32 bytes.
    pub fn from_slice(s: &[u8]) -> (h: H256)
        requires
            s@.len() == 32,
        ensures
            h@ == s@,
    {
        H256(array_from_slice(s))
    }

    pub fn as_bytes(&self) -> (s: &[u8])
        ensures
            s@ == self@,
    {
        self.0.as_slice()
    }
}

impl Bloom {
    /// Builds a bloom filter from exactly 256 bytes.
    pub fn from_slice(s: &[u8]) -> (b: Bloom)
        requires
            s@.len() == 256,
        ensures
            b@ == s@,
    {
        Bloom(array_from_slice(s))
    }

    pub fn as_bytes(&self) -> (s: &[u8])
        ensures
            s@ == self@,
    {
        self.0.as_slice()
    }
}

impl U256 {
    /// The 32 big-endian bytes of the value.
    pub fn to_big_endian(&self) -> (b: [u8; 32])
        ensures
            b@ == self.0@,
            be_value(b@) == self@,
    {
        self.0
    }

    /// The value whose big-endian bytes are `s`, at most 32 of them.
    pub fn from_big_endian(s: &[u8]) -> (v: U256)
        requires
            s@.len() <= 32,
        ensures
            v@ == be_value(s@),
    {
        let n = s.len();
        let mut a = [0u8; 32];
        let mut j: usize = 0;
        while j < 32
            invariant
                j <= 32,
                n == s@.len(),
                n <= 32,
                forall|k: int| 0 <= k < j ==> a@[k] == (if k < 32 - n { 0u8 } else { s@[k - (32 - n)] }),
            decreases 32 - j,
        {
            a[j] = if j < 32 - n { 0 } else { s[j - (32 - n)] };
            j = j + 1;
        }
        proof {
            let z = a@.subrange(0, 32 - n as int);
            assert(a@ =~= z + s@);
            crate::primitives::lemma_be_value_leading_zeros(z, s@);
        }
        U256(a)
    }

    pub fn zero() -> (v: U256)
        ensures
            v@ == 0,
    {
        let a = [0u8; 32];
        proof {
            crate::primitives::lemma_be_value_zeros(a@);
        }
        U256(a)
    }

    pub fn is_zero(&self) -> (b: bool)
        ensures
            b == (self@ == 0),
    {
        let mut i: usize = 0;
        while i < 32
            invariant
                i <= 32,
                forall|j: int| 0 <= j < i ==> self.0@[j] == 0,
            decreases 32 - i,
        {
            if self.0[i] != 0 {
                proof {
                    lemma_nonzero_byte_value(self.0@, i as int);
                }
                return false;
            }
            i = i + 1;
        }
        proof {
            crate::primitives::lemma_be_value_zeros(self.0@);
        }
        true
    }
}

/// A byte sequence with a non-zero byte denotes a non-zero number.
proof fn lemma_nonzero_byte_value(s: Seq<u8>, i: int)
    requires
        0 <= i < s.len(),
        s[i] != 0,
    ensures
        be_value(s) != 0,
    decreases s.len(),
{
    if i < s.len() - 1 {
        lemma_nonzero_byte_value(s.drop_last(), i);
        assert(be_value(s.drop_last()) >= 1);
    }
}

/// Every `U256` is below 2^256.
pub proof fn lemma_u256_bound(v: U256)
    ensures
        v@ < pow256(32),
{
    lemma_be_value_bound(v.0@);
}

/// Reads `n` raw bytes from the front of `s`.
pub open spec fn parse_fixed(s: Seq<u8>, n: nat) -> Option<(Seq<u8>, Seq<u8>)> {
    if s.len() < n {
        None
    } else {
        Some((s.subrange(0, n as int), s.subrange(n as int, s.len() as int)))
    }
}

/// Reading back `n` raw bytes that were written gives them and the rest.
pub proof fn lemma_fixed_roundtrip(x: Seq<u8>, rest: Seq<u8>)
    ensures
        parse_fixed(x + rest, x.len()) == Some((x, rest)),
{
    assert((x + rest).subrange(0, x.len() as int) =~= x);
    assert((x + rest).subrange(x.len() as int, (x + rest).len() as int) =~= rest);
}

/// A strict prefix of `n` raw bytes does not hold `n` bytes.
pub proof fn lemma_fixed_truncated(x: Seq<u8>, p: Seq<u8>)
    requires
        is_strict_prefix(p, x),
    ensures
        parse_fixed(p, x.len()) is None,
{
}

/// A 32-byte hash is written as its raw bytes.
pub open spec fn hash_enc() -> spec_fn(Seq<u8>) -> Seq<u8> {
    |h: Seq<u8>| h
}

/// A 32-byte hash is read as the next 32 raw bytes.
pub open spec fn hash_parser() -> spec_fn(Seq<u8>) -> Option<(Seq<u8>, Seq<u8>)> {
    |s: Seq<u8>| parse_fixed(s, 32)
}

/// A hash in a list is written as its own bytes, and read as the next 32 bytes.
pub proof fn lemma_hash_layout(h: Seq<u8>, s: Seq<u8>)
    ensures
        (hash_enc())(h) == h,
        (hash_parser())(s) == parse_fixed(s, 32),
{
}

/// Every hash in `hs` is 32 bytes long.
pub open spec fn all_hashes(hs: Seq<Seq<u8>>) -> bool {
    forall|i: int| 0 <= i < hs.len() ==> (#[trigger] hs[i]).len() == 32
}

/// Reading back hashes written one after another gives them back.
pub proof fn lemma_hashes_roundtrip(hs: Seq<Seq<u8>>, rest: Seq<u8>)
    requires
        all_hashes(hs),
    ensures
        parse_seq(seq_bytes(hs, hash_enc()) + rest, hs.len(), hash_parser()) == Some((hs, rest)),
{
    assert forall|i: int, r: Seq<u8>| 0 <= i < hs.len() implies #[trigger] (hash_parser())(
        (hash_enc())(hs[i]) + r,
    ) == Some((hs[i], r)) by {
        lemma_fixed_roundtrip(hs[i], r);
    }
    lemma_seq_roundtrip(hs, hash_enc(), hash_parser(), rest);
}

/// A strict prefix of hashes written one after another does not read as
/// all of them.
pub proof fn lemma_hashes_truncated(hs: Seq<Seq<u8>>, p: Seq<u8>)
    requires
        all_hashes(hs),
        is_strict_prefix(p, seq_bytes(hs, hash_enc())),
    ensures
        parse_seq(p, hs.len(), hash_parser()) is None,
{
    assert forall|i: int, r: Seq<u8>| 0 <= i < hs.len() implies #[trigger] (hash_parser())(
        (hash_enc())(hs[i]) + r,
    ) == Some((hs[i], r)) by {
        lemma_fixed_roundtrip(hs[i], r);
    }
    assert forall|i: int, r: Seq<u8>|
        0 <= i < hs.len() && #[trigger] is_strict_prefix(r, (hash_enc())(hs[i])) implies (
    hash_parser())(r) is None by {
        lemma_fixed_truncated(hs[i], r);
    }
    lemma_seq_truncated(hs, hash_enc(), hash_parser(), p);
}

} // verus!
