//! Optional fields, written only when present and announced by flag bits.
use vstd::prelude::*;

use crate::error::StoreError;
use crate::fixed::{lemma_fixed_roundtrip, parse_fixed, H256};
use crate::primitives::{push_slice, compact_uint, decode_u64, encode_u64, lemma_u64_roundtrip, parse_u64};

verus! {

/// The view of an optional value.
pub open spec fn opt_view<T: View>(o: Option<T>) -> Option<T::V> {
    match o {
        Some(x) => Some(x@),
        None => None,
    }
}

/// `bit` where the field is present, no bit where it is absent.
pub open spec fn flag(present: bool, bit: u8) -> u8 {
    if present {
        bit
    } else {
        0
    }
}

pub fn flag_bit(present: bool, bit: u8) -> (r: u8)
    ensures
        r == flag(present, bit),
{
    if present {
        bit
    } else {
        0
    }
}

/// An optional `u64`: its compact encoding where present, nothing where absent.
#[verifier::opaque]
pub open spec fn opt_u64_bytes(o: Option<u64>) -> Seq<u8> {
    match o {
        Some(v) => compact_uint(v as nat),
        None => Seq::empty(),
    }
}

/// An optional hash: its 32 raw bytes where present, nothing where absent.
#[verifier::opaque]
pub open spec fn opt_hash_bytes(o: Option<Seq<u8>>) -> Seq<u8> {
    match o {
        Some(h) => h,
        None => Seq::empty(),
    }
}

/// Reads a compact `u64` where `present`, and nothing otherwise.
#[verifier::opaque]
pub open spec fn parse_opt_u64(s: Seq<u8>, present: bool) -> Option<(Option<u64>, Seq<u8>)> {
    if present {
        match parse_u64(s) {
            Some((v, r)) => Some((Some(v), r)),
            None => None,
        }
    } else {
        Some((None, s))
    }
}

/// Reads 32 raw bytes where `present`, and nothing otherwise.
#[verifier::opaque]
pub open spec fn parse_opt_hash(s: Seq<u8>, present: bool) -> Option<(Option<Seq<u8>>, Seq<u8>)> {
    if present {
        match parse_fixed(s, 32) {
            Some((h, r)) => Some((Some(h), r)),
            None => None,
        }
    } else {
        Some((None, s))
    }
}

pub proof fn lemma_opt_u64_roundtrip(o: Option<u64>, rest: Seq<u8>)
    ensures
        parse_opt_u64(opt_u64_bytes(o) + rest, o is Some) == Some((o, rest)),
{
    reveal(opt_u64_bytes);
    reveal(parse_opt_u64);
    match o {
        Some(v) => lemma_u64_roundtrip(v, rest),
        None => assert(opt_u64_bytes(o) + rest =~= rest),
    }
}

pub proof fn lemma_opt_hash_roundtrip(o: Option<Seq<u8>>, rest: Seq<u8>)
    requires
        o matches Some(h) ==> h.len() == 32,
    ensures
        parse_opt_hash(opt_hash_bytes(o) + rest, o is Some) == Some((o, rest)),
{
    reveal(opt_hash_bytes);
    reveal(parse_opt_hash);
    match o {
        Some(h) => lemma_fixed_roundtrip(h, rest),
        None => assert(opt_hash_bytes(o) + rest =~= rest),
    }
}

pub fn encode_opt_u64(o: Option<u64>, buf: &mut Vec<u8>)
    ensures
        final(buf)@ == old(buf)@ + opt_u64_bytes(o),
{
    reveal(opt_u64_bytes);
    if let Some(v) = o {
        encode_u64(v, buf);
    } else {
        assert(buf@ =~= old(buf)@ + opt_u64_bytes(o));
    }
}

pub fn encode_opt_hash(o: &Option<H256>, buf: &mut Vec<u8>)
    ensures
        final(buf)@ == old(buf)@ + opt_hash_bytes(opt_view(*o)),
{
    reveal(opt_hash_bytes);
    if let Some(h) = o {
        push_slice(h.as_bytes(), buf);
        assert(buf@ =~= old(buf)@ + opt_hash_bytes(opt_view(*o)));
    } else {
        assert(buf@ =~= old(buf)@ + opt_hash_bytes(opt_view(*o)));
    }
}

pub fn decode_opt_u64(buf: &[u8], present: bool) -> (res: Result<(Option<u64>, &[u8]), StoreError>)
    ensures
        res is Ok <==> parse_opt_u64(buf@, present) is Some,
        res matches Ok((v, rest)) ==> parse_opt_u64(buf@, present) == Some((v, rest@)),
{
    reveal(parse_opt_u64);
    if present {
        let (v, b) = decode_u64(buf)?;
        Ok((Some(v), b))
    } else {
        Ok((None, buf))
    }
}

pub fn decode_opt_hash(buf: &[u8], present: bool) -> (res: Result<(Option<H256>, &[u8]), StoreError>)
    ensures
        res is Ok <==> parse_opt_hash(buf@, present) is Some,
        res matches Ok((v, rest)) ==> parse_opt_hash(buf@, present) == Some((opt_view(v), rest@)),
{
    reveal(parse_opt_hash);
    if present {
        if buf.len() < 32 {
            return Err(StoreError::DecodeError);
        }
        let (b, rest) = buf.split_at(32);
        Ok((Some(H256::from_slice(b)), rest))
    } else {
        Ok((None, buf))
    }
}

} // verus!
