//! Where a transaction lives: (block number, block hash, index in block).
use vstd::prelude::*;

use crate::error::StoreError;
use crate::fixed::{lemma_fixed_roundtrip, parse_fixed, H256};
use crate::primitives::{push_slice, compact_uint, decode_u64, encode_u64, lemma_u64_roundtrip, parse_u64};

verus! {

/// Transaction location layout:
///   [compact u64: block_number]
///   [32 bytes raw: block_hash]
///   [compact u64: index]
pub open spec fn tx_location_bytes(block_number: u64, block_hash: Seq<u8>, index: u64) -> Seq<u8> {
    compact_uint(block_number as nat) + block_hash + compact_uint(index as nat)
}

/// What `decode_tx_location` reads; bytes after the index are ignored.
pub open spec fn parse_tx_location(s: Seq<u8>) -> Option<(u64, Seq<u8>, u64)> {
    match parse_u64(s) {
        None => None,
        Some((block_number, r1)) => match parse_fixed(r1, 32) {
            None => None,
            Some((block_hash, r2)) => match parse_u64(r2) {
                None => None,
                Some((index, _)) => Some((block_number, block_hash, index)),
            },
        },
    }
}

/// Encodes (block_number: u64, block_hash: H256, index: u64) compactly.
pub fn encode_tx_location(block_number: u64, block_hash: H256, index: u64) -> (out: Vec<u8>)
    ensures
        out@ == tx_location_bytes(block_number, block_hash@, index),
{
    let mut buf = Vec::with_capacity(1 + 8 + 32 + 1 + 8);
    encode_u64(block_number, &mut buf);
    push_slice(block_hash.as_bytes(), &mut buf);
    encode_u64(index, &mut buf);
    assert(buf@ =~= tx_location_bytes(block_number, block_hash@, index));
    buf
}

pub fn decode_tx_location(buf: &[u8]) -> (res: Result<(u64, H256, u64), StoreError>)
    ensures
        res is Ok <==> parse_tx_location(buf@) is Some,
        res matches Ok((n, h, i)) ==> parse_tx_location(buf@) == Some((n, h@, i)),
{
    let (block_number, buf) = decode_u64(buf)?;
    if buf.len() < 32 {
        return Err(StoreError::DecodeError);
    }
    let (hash_bytes, buf) = buf.split_at(32);
    let block_hash = H256::from_slice(hash_bytes);
    let (index, _) = decode_u64(buf)?;
    Ok((block_number, block_hash, index))
}

/// Decoding an encoded transaction location gives back the block number,
/// the block hash and the index, whatever bytes follow the encoding.
pub proof fn lemma_tx_location_roundtrip(block_number: u64, block_hash: H256, index: u64, rest: Seq<u8>)
    ensures
        parse_tx_location(tx_location_bytes(block_number, block_hash@, index) + rest) == Some(
            (block_number, block_hash@, index),
        ),
{
    let t2 = compact_uint(index as nat) + rest;
    let t1 = block_hash@ + t2;
    assert(tx_location_bytes(block_number, block_hash@, index) + rest =~= compact_uint(
        block_number as nat,
    ) + t1);
    lemma_u64_roundtrip(block_number, t1);
    lemma_fixed_roundtrip(block_hash@, t2);
    lemma_u64_roundtrip(index, rest);
}

/// A transaction location is written as the block number, the 32 hash
/// bytes and the index, in that order; and decoding gives back, in that
/// order, the integer read at the front, the 32 bytes after it, and the
/// integer after those.
pub proof fn lemma_tx_location_layout(block_number: u64, block_hash: Seq<u8>, index: u64, s: Seq<u8>)
    ensures
        tx_location_bytes(block_number, block_hash, index) == compact_uint(block_number as nat)
            + block_hash + compact_uint(index as nat),
        parse_tx_location(s) matches Some((n, h, i)) ==> (parse_u64(s) matches Some((m, r)) && m
            == n && r.len() >= 32 && r.subrange(0, 32) == h && (parse_u64(
            r.subrange(32, r.len() as int),
        ) matches Some((j, _)) && j == i)),
{
}

} // verus!
