use vstd::prelude::*;

use crate::error::StoreError;
use crate::fixed::{lemma_u256_bound, U256};
use crate::lists::{is_strict_prefix, lemma_split_prefix};

verus! {

// ---------------------------------------------------------------------------
// Mathematical model
// ---------------------------------------------------------------------------

/// `256` raised to the power `k`.
pub open spec fn pow256(k: nat) -> nat
    decreases k,
{
    if k == 0 {
        1
    } else {
        256 * pow256((k - 1) as nat)
    }
}

/// The significant big-endian bytes of `n`: no leading zero byte, and no
/// byte at all for zero.
pub open spec fn be_min(n: nat) -> Seq<u8>
    decreases n,
{
    if n == 0 {
        Seq::empty()
    } else {
        be_min(n / 256).push((n % 256) as u8)
    }
}

/// The number that a sequence of bytes denotes in big-endian order.
pub open spec fn be_value(s: Seq<u8>) -> nat
    decreases s.len(),
{
    if s.len() == 0 {
        0
    } else {
        be_value(s.drop_last()) * 256 + s.last() as nat
    }
}

/// Compact encoding of an unsigned integer: one byte that counts the
/// significant bytes, then those bytes, most significant first.
#[verifier::opaque]
pub open spec fn compact_uint(n: nat) -> Seq<u8> {
    seq![be_min(n).len() as u8] + be_min(n)
}

/// Reads a compact unsigned integer of at most `max_len` significant bytes.
/// Fails on empty input, on a length byte above `max_len`, and when fewer
/// bytes follow than the length byte announces. Leading zero bytes are
/// accepted.
pub open spec fn parse_compact_uint(s: Seq<u8>, max_len: nat) -> Option<(nat, Seq<u8>)> {
    if s.len() == 0 {
        None
    } else if s[0] > max_len || s.len() - 1 < s[0] {
        None
    } else {
        Some((be_value(s.subrange(1, 1 + s[0] as int)), s.subrange(1 + s[0] as int, s.len() as int)))
    }
}

/// What `decode_u64` reads from `s`: the value and the bytes after it.
pub open spec fn parse_u64(s: Seq<u8>) -> Option<(u64, Seq<u8>)> {
    match parse_compact_uint(s, 8) {
        Some((v, rest)) => Some((v as u64, rest)),
        None => None,
    }
}

/// What `decode_u32` reads from `s`: the value and the bytes after it.
pub open spec fn parse_u32(s: Seq<u8>) -> Option<(u32, Seq<u8>)> {
    match parse_compact_uint(s, 4) {
        Some((v, rest)) => Some((v as u32, rest)),
        None => None,
    }
}

/// What `decode_u256` reads from `s`: the value and the bytes after it.
pub open spec fn parse_u256(s: Seq<u8>) -> Option<(nat, Seq<u8>)> {
    parse_compact_uint(s, 32)
}

/// The length that a `u32` length prefix records for a sequence of `n`
/// items: `n` reduced modulo 2^32, as the cast to `u32` does.
pub open spec fn len_prefix(n: nat) -> nat {
    n % 0x1_0000_0000
}

/// Compact encoding of a byte string: its compact `u32` length, then its bytes.
#[verifier::opaque]
pub open spec fn compact_bytes(data: Seq<u8>) -> Seq<u8> {
    compact_uint(len_prefix(data.len())) + data
}

/// What `decode_bytes` reads from `s`: the byte string and the bytes after it.
pub open spec fn parse_bytes(s: Seq<u8>) -> Option<(Seq<u8>, Seq<u8>)> {
    match parse_u32(s) {
        Some((len, rest)) => if rest.len() < len {
            None
        } else {
            Some((rest.subrange(0, len as int), rest.subrange(len as int, rest.len() as int)))
        },
        None => None,
    }
}

// ---------------------------------------------------------------------------
// Lemmas on the model
// ---------------------------------------------------------------------------

pub proof fn lemma_pow256_positive(k: nat)
    ensures
        pow256(k) >= 1,
    decreases k,
{
    if k > 0 {
        lemma_pow256_positive((k - 1) as nat);
    }
}

pub proof fn lemma_pow256_values()
    ensures
        pow256(4) == 0x1_0000_0000,
        pow256(8) == 0x1_0000_0000_0000_0000,
{
    reveal_with_fuel(pow256, 9);
}

/// The bytes of `s` denote a number below `256^len`.
pub proof fn lemma_be_value_bound(s: Seq<u8>)
    ensures
        be_value(s) < pow256(s.len()),
    decreases s.len(),
{
    if s.len() > 0 {
        lemma_be_value_bound(s.drop_last());
        let p = pow256((s.len() - 1) as nat);
        let v = be_value(s.drop_last());
        assert(v * 256 + s.last() < p * 256) by (nonlinear_arith)
            requires
                v < p,
                s.last() < 256,
        ;
    }
}

/// A number below `256^k` has at most `k` significant bytes.
pub proof fn lemma_be_min_len(n: nat, k: nat)
    requires
        n < pow256(k),
    ensures
        be_min(n).len() <= k,
    decreases n,
{
    if n > 0 {
        assert(k > 0);
        let k1 = (k - 1) as nat;
        assert(n / 256 < pow256(k1)) by (nonlinear_arith)
            requires
                n < pow256(k),
                pow256(k) == 256 * pow256(k1),
        ;
        lemma_be_min_len(n / 256, k1);
    }
}

/// The significant bytes of `n` denote `n`.
pub proof fn lemma_be_value_be_min(n: nat)
    ensures
        be_value(be_min(n)) == n,
    decreases n,
{
    if n > 0 {
        lemma_be_value_be_min(n / 256);
        let s = be_min(n);
        assert(s.drop_last() =~= be_min(n / 256));
    }
}

/// Leading zero bytes do not change the value.
pub proof fn lemma_be_value_leading_zeros(z: Seq<u8>, t: Seq<u8>)
    requires
        forall|i: int| 0 <= i < z.len() ==> z[i] == 0,
    ensures
        be_value(z + t) == be_value(t),
    decreases t.len(),
{
    if t.len() == 0 {
        lemma_be_value_zeros(z);
        assert(z + t =~= z);
    } else {
        lemma_be_value_leading_zeros(z, t.drop_last());
        assert((z + t).drop_last() =~= z + t.drop_last());
    }
}

/// A run of zero bytes denotes zero.
pub proof fn lemma_be_value_zeros(z: Seq<u8>)
    requires
        forall|i: int| 0 <= i < z.len() ==> z[i] == 0,
    ensures
        be_value(z) == 0,
    decreases z.len(),
{
    if z.len() > 0 {
        lemma_be_value_zeros(z.drop_last());
    }
}

/// Bytes that begin with a non-zero byte are the significant bytes of the
/// number they denote.
pub proof fn lemma_be_min_be_value(t: Seq<u8>)
    requires
        t.len() == 0 || t[0] != 0,
    ensures
        be_min(be_value(t)) == t,
        t.len() > 0 ==> be_value(t) > 0,
    decreases t.len(),
{
    if t.len() > 0 {
        let p = t.drop_last();
        lemma_be_min_be_value(p);
        let v = be_value(t);
        let pv = be_value(p);
        assert(v / 256 == pv && v % 256 == t.last() as nat) by (nonlinear_arith)
            requires
                v == pv * 256 + t.last(),
                t.last() < 256,
        ;
        if p.len() == 0 {
            assert(t.last() == t[0]);
        }
        assert(v > 0);
        assert(be_min(v) =~= be_min(pv).push(t.last()));
        assert(t =~= p.push(t.last()));
    }
}

/// Reading the compact encoding of a number that fits gives the number back
/// and leaves the bytes that followed it.
pub proof fn lemma_compact_uint_roundtrip(n: nat, k: nat, rest: Seq<u8>)
    requires
        n < pow256(k),
        k <= 255,
    ensures
        parse_compact_uint(compact_uint(n) + rest, k) == Some((n, rest)),
{
    lemma_be_min_len(n, k);
    lemma_be_value_be_min(n);
    reveal(compact_uint);
    let s = compact_uint(n) + rest;
    let len = be_min(n).len();
    assert(s[0] == len as u8);
    assert(s.subrange(1, 1 + len as int) =~= be_min(n));
    assert(s.subrange(1 + len as int, s.len() as int) =~= rest);
}

/// The value that `parse_compact_uint` reads fits in `max_len` bytes.
pub proof fn lemma_parse_compact_uint_bound(s: Seq<u8>, max_len: nat)
    ensures
        parse_compact_uint(s, max_len) matches Some((v, _)) ==> v < pow256(max_len),
{
    if let Some((v, _)) = parse_compact_uint(s, max_len) {
        let len = s[0] as nat;
        let b = s.subrange(1, 1 + s[0] as int);
        lemma_be_value_bound(b);
        lemma_pow256_monotone(len, max_len);
    }
}

pub proof fn lemma_pow256_monotone(a: nat, b: nat)
    requires
        a <= b,
    ensures
        pow256(a) <= pow256(b),
    decreases b,
{
    if a < b {
        lemma_pow256_monotone(a, (b - 1) as nat);
        lemma_pow256_positive((b - 1) as nat);
    }
}

// ---------------------------------------------------------------------------
// Laws
// ---------------------------------------------------------------------------

/// The significant bytes of a non-zero number start with a non-zero byte.
pub proof fn lemma_be_min_first_nonzero(n: nat)
    requires
        n > 0,
    ensures
        be_min(n).len() > 0,
        be_min(n)[0] != 0,
    decreases n,
{
    if n / 256 > 0 {
        lemma_be_min_first_nonzero(n / 256);
    } else {
        assert(be_min(n / 256) =~= Seq::<u8>::empty());
    }
}

/// The compact encoding is minimal: zero is the single byte 0; any other
/// number below 2^256 is its length byte followed by its significant bytes,
/// the first of which is not zero; and a number below `256^k` takes at most
/// `k + 1` bytes in all.
pub proof fn lemma_compact_uint_minimal(n: nat, k: nat)
    requires
        n < pow256(32),
    ensures
        compact_uint(0) == seq![0u8],
        compact_uint(n)[0] as nat == compact_uint(n).len() - 1,
        n > 0 ==> compact_uint(n).len() >= 2 && compact_uint(n)[1] != 0,
        n < pow256(k) ==> compact_uint(n).len() <= k + 1,
{
    reveal(compact_uint);
    assert(compact_uint(0) =~= seq![0u8]);
    lemma_be_min_len(n, 32);
    if n < pow256(k) {
        lemma_be_min_len(n, k);
    }
    if n > 0 {
        lemma_be_min_first_nonzero(n);
    }
}

/// The compact encoding of a number below 2^256 is one length byte `k`
/// followed by exactly `k` bytes that denote the number in big-endian order
/// and do not begin with a zero byte.
pub proof fn lemma_compact_uint_layout(n: nat)
    requires
        n < pow256(32),
    ensures
        compact_uint(n).len() >= 1,
        compact_uint(n).len() == compact_uint(n)[0] as int + 1,
        be_value(compact_uint(n).subrange(1, compact_uint(n).len() as int)) == n,
        compact_uint(n).len() == 1 || compact_uint(n)[1] != 0,
{
    lemma_compact_uint_minimal(n, 32);
    reveal(compact_uint);
    lemma_be_value_be_min(n);
    assert(compact_uint(n).subrange(1, compact_uint(n).len() as int) =~= be_min(n));
}

/// A byte string is written as its length, as a compact integer reduced
/// modulo 2^32, followed by its bytes.
pub proof fn lemma_compact_bytes_layout(data: Seq<u8>)
    ensures
        compact_bytes(data) == compact_uint(data.len() % 0x1_0000_0000) + data,
{
    reveal(compact_bytes);
}

/// A strict prefix of the compact encoding of a number that fits does not
/// read as a number.
pub proof fn lemma_compact_uint_truncated(n: nat, k: nat, p: Seq<u8>)
    requires
        n < pow256(k),
        k <= 255,
        is_strict_prefix(p, compact_uint(n)),
    ensures
        parse_compact_uint(p, k) is None,
{
    reveal(compact_uint);
    lemma_be_min_len(n, k);
    if p.len() > 0 {
        assert(p[0] == compact_uint(n)[0]);
    }
}

pub proof fn lemma_u64_truncated(v: u64, p: Seq<u8>)
    requires
        is_strict_prefix(p, compact_uint(v as nat)),
    ensures
        parse_u64(p) is None,
{
    lemma_pow256_values();
    lemma_compact_uint_truncated(v as nat, 8, p);
}

pub proof fn lemma_u32_truncated(v: u32, p: Seq<u8>)
    requires
        is_strict_prefix(p, compact_uint(v as nat)),
    ensures
        parse_u32(p) is None,
{
    lemma_pow256_values();
    lemma_compact_uint_truncated(v as nat, 4, p);
}

/// A strict prefix of an encoded byte string does not read as a byte string.
pub proof fn lemma_bytes_truncated(data: Seq<u8>, p: Seq<u8>)
    requires
        data.len() <= u32::MAX,
        is_strict_prefix(p, compact_bytes(data)),
    ensures
        parse_bytes(p) is None,
{
    reveal(compact_bytes);
    let n = data.len();
    assert(len_prefix(n) == n as u32 as nat);
    lemma_split_prefix(p, compact_uint(n as u32 as nat), data);
    if is_strict_prefix(p, compact_uint(n as u32 as nat)) {
        lemma_u32_truncated(n as u32, p);
    } else {
        let q = p.subrange(compact_uint(n as u32 as nat).len() as int, p.len() as int);
        lemma_u32_roundtrip(n as u32, q);
    }
}

/// Decoding the compact encoding of a `u64` gives the value back, and the
/// bytes after it are left as they were.
pub proof fn lemma_u64_roundtrip(v: u64, rest: Seq<u8>)
    ensures
        parse_u64(compact_uint(v as nat) + rest) == Some((v, rest)),
{
    lemma_pow256_values();
    lemma_compact_uint_roundtrip(v as nat, 8, rest);
}

/// Decoding the compact encoding of a `u32` gives the value back, and the
/// bytes after it are left as they were.
pub proof fn lemma_u32_roundtrip(v: u32, rest: Seq<u8>)
    ensures
        parse_u32(compact_uint(v as nat) + rest) == Some((v, rest)),
{
    lemma_pow256_values();
    lemma_compact_uint_roundtrip(v as nat, 4, rest);
}

/// Decoding the compact encoding of a 256-bit integer gives the value back,
/// and the bytes after it are left as they were.
pub proof fn lemma_u256_roundtrip(v: U256, rest: Seq<u8>)
    ensures
        parse_u256(compact_uint(v@) + rest) == Some((v@, rest)),
{
    lemma_u256_bound(v);
    lemma_compact_uint_roundtrip(v@, 32, rest);
}

/// Decoding an encoded byte string gives it back, and the bytes after it are
/// left as they were, for every string shorter than 2^32 bytes.
pub proof fn lemma_bytes_roundtrip(data: Seq<u8>, rest: Seq<u8>)
    requires
        data.len() <= u32::MAX,
    ensures
        parse_bytes(compact_bytes(data) + rest) == Some((data, rest)),
{
    let n = data.len();
    assert(len_prefix(n) == n);
    lemma_u32_roundtrip(n as u32, data + rest);
    reveal(compact_bytes);
    assert(compact_bytes(data) + rest =~= compact_uint(n as u32 as nat) + (data + rest));
    assert((data + rest).subrange(0, n as int) =~= data);
    assert((data + rest).subrange(n as int, (data + rest).len() as int) =~= rest);
}

// ---------------------------------------------------------------------------
// Executable encoders and decoders
// ---------------------------------------------------------------------------

/// The number of significant bytes of `x`.
fn be_min_len(x: u64) -> (n: u8)
    ensures
        n as nat == be_min(x as nat).len(),
        n <= 8,
    decreases x,
{
    proof {
        lemma_pow256_values();
        lemma_be_min_len(x as nat, 8);
    }
    if x == 0 {
        0
    } else {
        let m = be_min_len(x / 256);
        m + 1
    }
}

/// Appends the significant bytes of `x`, most significant first.
fn push_be_min(x: u64, buf: &mut Vec<u8>)
    ensures
        final(buf)@ == old(buf)@ + be_min(x as nat),
    decreases x,
{
    if x != 0 {
        push_be_min(x / 256, buf);
        buf.push((x % 256) as u8);
        assert(final(buf)@ =~= old(buf)@ + be_min(x as nat));
    } else {
        assert(buf@ =~= old(buf)@ + be_min(x as nat));
    }
}

/// Encode a u64 as: [len_byte, significant_bytes...]
/// len_byte = 0 means value is zero (0 bytes follow).
pub fn encode_u64(val: u64, buf: &mut Vec<u8>)
    ensures
        final(buf)@ == old(buf)@ + compact_uint(val as nat),
{
    let n = be_min_len(val);
    buf.push(n);
    push_be_min(val, buf);
    reveal(compact_uint);
    assert(buf@ =~= old(buf)@ + compact_uint(val as nat));
}

/// Encode a u32 as: [len_byte, significant_bytes...]
pub fn encode_u32(val: u32, buf: &mut Vec<u8>)
    ensures
        final(buf)@ == old(buf)@ + compact_uint(val as nat),
{
    encode_u64(val as u64, buf);
}

/// Reads a compact unsigned integer of at most `max_len <= 8` significant bytes.
fn decode_uint(buf: &[u8], max_len: u8) -> (res: Result<(u64, &[u8]), StoreError>)
    requires
        max_len <= 8,
    ensures
        res is Ok <==> parse_compact_uint(buf@, max_len as nat) is Some,
        res matches Ok((v, rest)) ==> parse_compact_uint(buf@, max_len as nat) == Some((v as nat, rest@)),
{
    if buf.len() == 0 {
        return Err(StoreError::DecodeError);
    }
    let len = buf[0];
    if len > max_len {
        return Err(StoreError::DecodeError);
    }
    if buf.len() - 1 < len as usize {
        return Err(StoreError::DecodeError);
    }
    let end = 1 + len as usize;
    let mut v: u64 = 0;
    let mut i: usize = 1;
    while i < end
        invariant
            1 <= i <= end,
            end == 1 + len,
            len <= max_len <= 8,
            end <= buf.len(),
            v as nat == be_value(buf@.subrange(1, i as int)),
        decreases end - i,
    {
        let ghost s = buf@.subrange(1, i + 1);
        proof {
            assert(s.drop_last() =~= buf@.subrange(1, i as int));
            lemma_be_value_bound(s);
            lemma_pow256_monotone(s.len(), 8);
            lemma_pow256_values();
        }
        v = v * 256 + buf[i] as u64;
        i = i + 1;
    }
    let (_, rest) = buf.split_at(end);
    Ok((v, rest))
}

pub fn decode_u64(buf: &[u8]) -> (res: Result<(u64, &[u8]), StoreError>)
    ensures
        res is Ok <==> parse_u64(buf@) is Some,
        res matches Ok((v, rest)) ==> parse_u64(buf@) == Some((v, rest@)),
{
    decode_uint(buf, 8)
}

pub fn decode_u32(buf: &[u8]) -> (res: Result<(u32, &[u8]), StoreError>)
    ensures
        res is Ok <==> parse_u32(buf@) is Some,
        res matches Ok((v, rest)) ==> parse_u32(buf@) == Some((v, rest@)),
{
    match decode_uint(buf, 4) {
        Ok((v, rest)) => {
            proof {
                lemma_parse_compact_uint_bound(buf@, 4);
                lemma_pow256_values();
            }
            Ok((v as u32, rest))
        },
        Err(e) => Err(e),
    }
}

/// Appends the bytes of `s`.
pub fn push_slice(s: &[u8], buf: &mut Vec<u8>)
    ensures
        final(buf)@ == old(buf)@ + s@,
{
    buf.extend_from_slice(s);
    assert(buf@ =~= old(buf)@ + s@);
}

/// A new vector that holds a copy of `s`.
pub fn slice_to_vec(s: &[u8]) -> (v: Vec<u8>)
    ensures
        v@ == s@,
{
    let mut v = Vec::new();
    push_slice(s, &mut v);
    assert(v@ =~= s@);
    v
}

/// Encode a byte slice with a compact u32 length prefix.
pub fn encode_bytes(data: &[u8], buf: &mut Vec<u8>)
    ensures
        final(buf)@ == old(buf)@ + compact_bytes(data@),
{
    encode_u32(len_as_u32(data.len()), buf);
    push_slice(data, buf);
    reveal(compact_bytes);
    assert(buf@ =~= old(buf)@ + compact_bytes(data@));
}

pub fn decode_bytes<'a>(buf: &'a [u8]) -> (res: Result<(&'a [u8], &'a [u8]), StoreError>)
    ensures
        res is Ok <==> parse_bytes(buf@) is Some,
        res matches Ok((data, rest)) ==> parse_bytes(buf@) == Some((data@, rest@)),
{
    let (len, rest) = decode_u32(buf)?;
    let len = len as usize;
    if rest.len() < len {
        return Err(StoreError::DecodeError);
    }
    Ok(rest.split_at(len))
}

/// The number of items that a `u32` length prefix records: `n as u32`.
pub fn len_as_u32(n: usize) -> (r: u32)
    ensures
        r as nat == len_prefix(n as nat),
{
    let r = n as u32;
    assert(r as u64 == (n as u64) % 0x1_0000_0000u64) by (bit_vector)
        requires
            r == n as u32,
    ;
    r
}

/// Encode a U256 as: [len_byte, significant_bytes...]
/// Same pattern as encode_u64 but up to 32 bytes.
pub fn encode_u256(val: &U256, buf: &mut Vec<u8>)
    ensures
        final(buf)@ == old(buf)@ + compact_uint(val@),
{
    if val.is_zero() {
        buf.push(0);
        proof {
            reveal(compact_uint);
            assert(be_min(0) =~= Seq::<u8>::empty());
            assert(buf@ =~= old(buf)@ + compact_uint(val@));
        }
        return;
    }
    let be = val.to_big_endian();
    let mut leading_zeros: usize = 0;
    while leading_zeros < 32 && be[leading_zeros] == 0
        invariant
            leading_zeros <= 32,
            forall|j: int| 0 <= j < leading_zeros ==> be@[j] == 0,
        decreases 32 - leading_zeros,
    {
        leading_zeros = leading_zeros + 1;
    }
    let sig_bytes = 32 - leading_zeros;
    buf.push(sig_bytes as u8);
    let (_, significant) = be.as_slice().split_at(leading_zeros);
    push_slice(significant, buf);
    proof {
        let z = be@.subrange(0, leading_zeros as int);
        let t = be@.subrange(leading_zeros as int, 32);
        assert(be@ =~= z + t);
        lemma_be_value_leading_zeros(z, t);
        lemma_be_min_be_value(t);
        reveal(compact_uint);
        assert(buf@ =~= old(buf)@ + compact_uint(val@));
    }
}

pub fn decode_u256(buf: &[u8]) -> (res: Result<(U256, &[u8]), StoreError>)
    ensures
        res is Ok <==> parse_u256(buf@) is Some,
        res matches Ok((v, rest)) ==> parse_u256(buf@) == Some((v@, rest@)),
{
    if buf.len() == 0 {
        return Err(StoreError::DecodeError);
    }
    let len = buf[0] as usize;
    if len > 32 {
        return Err(StoreError::DecodeError);
    }
    if buf.len() - 1 < len {
        return Err(StoreError::DecodeError);
    }
    let (head, rest) = buf.split_at(1 + len);
    let (_, bytes) = head.split_at(1);
    assert(bytes@ =~= buf@.subrange(1, 1 + len as int));
    Ok((U256::from_big_endian(bytes), rest))
}

} // verus!
