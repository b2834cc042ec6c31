//! Block headers.
use vstd::prelude::*;

use crate::codec::{CompactDecode, CompactEncode};
use crate::lists::lemma_assoc;
use crate::error::StoreError;
use crate::fixed::{lemma_fixed_roundtrip, lemma_u256_bound, parse_fixed, Address, Bloom, H256, U256};
use crate::optional::{
    decode_opt_hash, decode_opt_u64, encode_opt_hash, encode_opt_u64, flag, flag_bit,
    lemma_opt_hash_roundtrip, lemma_opt_u64_roundtrip, opt_hash_bytes, opt_u64_bytes, opt_view,
    parse_opt_hash, parse_opt_u64,
};
use crate::primitives::{push_slice, 
    compact_bytes, compact_uint, decode_bytes, decode_u256, decode_u64, encode_bytes, encode_u256,
    encode_u64, lemma_bytes_roundtrip, lemma_u64_roundtrip, parse_bytes,
    parse_u256, parse_u64, pow256,
};
use crate::shared_bytes::{bytes_as_slice, bytes_contents, bytes_copy_from_slice};

verus! {

/// A block header. Its hash is not a field: it is computed from the header
/// when needed and never stored.
#[derive(Debug, PartialEq, Eq)]
pub struct BlockHeader {
    pub parent_hash: H256,
    pub ommers_hash: H256,
    pub coinbase: Address,
    pub state_root: H256,
    pub transactions_root: H256,
    pub receipts_root: H256,
    pub logs_bloom: Bloom,
    pub difficulty: U256,
    pub number: u64,
    pub gas_limit: u64,
    pub gas_used: u64,
    pub timestamp: u64,
    pub extra_data: bytes::Bytes,
    pub prev_randao: H256,
    pub nonce: u64,
    pub base_fee_per_gas: Option<u64>,
    pub withdrawals_root: Option<H256>,
    pub blob_gas_used: Option<u64>,
    pub excess_blob_gas: Option<u64>,
    pub parent_beacon_block_root: Option<H256>,
    pub requests_hash: Option<H256>,
    pub block_access_list_hash: Option<H256>,
    pub slot_number: Option<u64>,
}

pub struct BlockHeaderView {
    pub parent_hash: Seq<u8>,
    pub ommers_hash: Seq<u8>,
    pub coinbase: Seq<u8>,
    pub state_root: Seq<u8>,
    pub transactions_root: Seq<u8>,
    pub receipts_root: Seq<u8>,
    pub logs_bloom: Seq<u8>,
    pub difficulty: nat,
    pub number: u64,
    pub gas_limit: u64,
    pub gas_used: u64,
    pub timestamp: u64,
    pub extra_data: Seq<u8>,
    pub prev_randao: Seq<u8>,
    pub nonce: u64,
    pub base_fee_per_gas: Option<u64>,
    pub withdrawals_root: Option<Seq<u8>>,
    pub blob_gas_used: Option<u64>,
    pub excess_blob_gas: Option<u64>,
    pub parent_beacon_block_root: Option<Seq<u8>>,
    pub requests_hash: Option<Seq<u8>>,
    pub block_access_list_hash: Option<Seq<u8>>,
    pub slot_number: Option<u64>,
}

impl View for BlockHeader {
    type V = BlockHeaderView;

    open spec fn view(&self) -> BlockHeaderView {
        BlockHeaderView {
            parent_hash: self.parent_hash@,
            ommers_hash: self.ommers_hash@,
            coinbase: self.coinbase@,
            state_root: self.state_root@,
            transactions_root: self.transactions_root@,
            receipts_root: self.receipts_root@,
            logs_bloom: self.logs_bloom@,
            difficulty: self.difficulty@,
            number: self.number,
            gas_limit: self.gas_limit,
            gas_used: self.gas_used,
            timestamp: self.timestamp,
            extra_data: bytes_contents(self.extra_data),
            prev_randao: self.prev_randao@,
            nonce: self.nonce,
            base_fee_per_gas: self.base_fee_per_gas,
            withdrawals_root: opt_view(self.withdrawals_root),
            blob_gas_used: self.blob_gas_used,
            excess_blob_gas: self.excess_blob_gas,
            parent_beacon_block_root: opt_view(self.parent_beacon_block_root),
            requests_hash: opt_view(self.requests_hash),
            block_access_list_hash: opt_view(self.block_access_list_hash),
            slot_number: self.slot_number,
        }
    }
}

pub open spec fn opt_hash_wf(o: Option<Seq<u8>>) -> bool {
    o matches Some(h) ==> h.len() == 32
}

impl BlockHeaderView {
    /// What every header satisfies: hashes of 32 bytes, a 20-byte coinbase,
    /// a 256-byte bloom and a difficulty below 2^256.
    pub open spec fn wf(self) -> bool {
        &&& self.parent_hash.len() == 32
        &&& self.ommers_hash.len() == 32
        &&& self.coinbase.len() == 20
        &&& self.state_root.len() == 32
        &&& self.transactions_root.len() == 32
        &&& self.receipts_root.len() == 32
        &&& self.logs_bloom.len() == 256
        &&& self.difficulty < pow256(32)
        &&& self.prev_randao.len() == 32
        &&& opt_hash_wf(self.withdrawals_root)
        &&& opt_hash_wf(self.parent_beacon_block_root)
        &&& opt_hash_wf(self.requests_hash)
        &&& opt_hash_wf(self.block_access_list_hash)
    }

    /// A header whose extra data fits its `u32` length prefix.
    pub open spec fn encodable(self) -> bool {
        self.wf() && self.extra_data.len() <= u32::MAX
    }
}

/// The flags byte: bit k tells whether the k-th optional field is present,
/// in the order base_fee_per_gas, withdrawals_root, blob_gas_used,
/// excess_blob_gas, parent_beacon_block_root, requests_hash,
/// block_access_list_hash, slot_number.
#[verifier::opaque]
pub open spec fn header_flags(h: BlockHeaderView) -> u8 {
    flag(h.base_fee_per_gas is Some, 0x01) | flag(h.withdrawals_root is Some, 0x02) | flag(
        h.blob_gas_used is Some,
        0x04,
    ) | flag(h.excess_blob_gas is Some, 0x08) | flag(h.parent_beacon_block_root is Some, 0x10)
        | flag(h.requests_hash is Some, 0x20) | flag(h.block_access_list_hash is Some, 0x40) | flag(
        h.slot_number is Some,
        0x80,
    )
}

/// The seven raw fields at the front of a header.
#[verifier::opaque]
pub open spec fn header_raw_part(h: BlockHeaderView) -> Seq<u8> {
    h.parent_hash + h.ommers_hash + h.coinbase + h.state_root + h.transactions_root
        + h.receipts_root + h.logs_bloom
}

/// The fields between the raw front and the flags byte.
#[verifier::opaque]
pub open spec fn header_counter_part(h: BlockHeaderView) -> Seq<u8> {
    compact_uint(h.difficulty) + compact_uint(h.number as nat) + compact_uint(h.gas_limit as nat)
        + compact_uint(h.gas_used as nat) + compact_uint(h.timestamp as nat) + compact_bytes(
        h.extra_data,
    ) + h.prev_randao + compact_uint(h.nonce as nat)
}

/// The optional fields that are present, in flag order.
#[verifier::opaque]
pub open spec fn header_optional_part(h: BlockHeaderView) -> Seq<u8> {
    opt_u64_bytes(h.base_fee_per_gas) + opt_hash_bytes(h.withdrawals_root) + opt_u64_bytes(
        h.blob_gas_used,
    ) + opt_u64_bytes(h.excess_blob_gas) + opt_hash_bytes(h.parent_beacon_block_root)
        + opt_hash_bytes(h.requests_hash) + opt_hash_bytes(h.block_access_list_hash)
        + opt_u64_bytes(h.slot_number)
}

/// BlockHeader compact encoding layout:
///   [parent_hash, ommers_hash: 32 bytes raw each]
///   [coinbase: 20 bytes raw]
///   [state_root, transactions_root, receipts_root: 32 bytes raw each]
///   [logs_bloom: 256 bytes raw]
///   [difficulty: compact U256]
///   [number, gas_limit, gas_used, timestamp: compact u64 each]
///   [extra_data: compact bytes]
///   [prev_randao: 32 bytes raw]
///   [nonce: compact u64]
///   [flags: 1 byte]
///   [each optional field that is present, in flag order: a compact u64 or
///    32 raw bytes]
pub open spec fn header_bytes(h: BlockHeaderView) -> Seq<u8> {
    header_raw_part(h) + header_counter_part(h) + seq![header_flags(h)] + header_optional_part(h)
}

/// Reads the seven raw fields; the other fields are left empty, zero or absent.
#[verifier::opaque]
pub open spec fn parse_header_raw(s: Seq<u8>) -> Option<(BlockHeaderView, Seq<u8>)> {
    match parse_fixed(s, 32) { None => None, Some((parent_hash, s)) =>
    match parse_fixed(s, 32) { None => None, Some((ommers_hash, s)) =>
    match parse_fixed(s, 20) { None => None, Some((coinbase, s)) =>
    match parse_fixed(s, 32) { None => None, Some((state_root, s)) =>
    match parse_fixed(s, 32) { None => None, Some((transactions_root, s)) =>
    match parse_fixed(s, 32) { None => None, Some((receipts_root, s)) =>
    match parse_fixed(s, 256) { None => None, Some((logs_bloom, s)) =>
    Some((BlockHeaderView {
        parent_hash, ommers_hash, coinbase, state_root, transactions_root, receipts_root,
        logs_bloom,
        difficulty: 0,
        number: 0,
        gas_limit: 0,
        gas_used: 0,
        timestamp: 0,
        extra_data: Seq::empty(),
        prev_randao: Seq::empty(),
        nonce: 0,
        base_fee_per_gas: None,
        withdrawals_root: None,
        blob_gas_used: None,
        excess_blob_gas: None,
        parent_beacon_block_root: None,
        requests_hash: None,
        block_access_list_hash: None,
        slot_number: None,
    }, s))
    }}}}}}}
}

/// Reads difficulty through nonce into `h`.
#[verifier::opaque]
pub open spec fn parse_header_counters(h: BlockHeaderView, s: Seq<u8>) -> Option<(BlockHeaderView, Seq<u8>)> {
    match parse_u256(s) { None => None, Some((difficulty, s)) =>
    match parse_u64(s) { None => None, Some((number, s)) =>
    match parse_u64(s) { None => None, Some((gas_limit, s)) =>
    match parse_u64(s) { None => None, Some((gas_used, s)) =>
    match parse_u64(s) { None => None, Some((timestamp, s)) =>
    match parse_bytes(s) { None => None, Some((extra_data, s)) =>
    match parse_fixed(s, 32) { None => None, Some((prev_randao, s)) =>
    match parse_u64(s) { None => None, Some((nonce, s)) =>
    Some((BlockHeaderView {
        difficulty, number, gas_limit, gas_used, timestamp, extra_data, prev_randao, nonce, ..h
    }, s))
    }}}}}}}}
}

/// Reads into `h` each optional field whose bit is set in `flags`.
#[verifier::opaque]
pub open spec fn parse_header_optionals(h: BlockHeaderView, flags: u8, s: Seq<u8>) -> Option<(BlockHeaderView, Seq<u8>)> {
    match parse_opt_u64(s, flags & 0x01 != 0) { None => None, Some((base_fee_per_gas, s)) =>
    match parse_opt_hash(s, flags & 0x02 != 0) { None => None, Some((withdrawals_root, s)) =>
    match parse_opt_u64(s, flags & 0x04 != 0) { None => None, Some((blob_gas_used, s)) =>
    match parse_opt_u64(s, flags & 0x08 != 0) { None => None, Some((excess_blob_gas, s)) =>
    match parse_opt_hash(s, flags & 0x10 != 0) { None => None, Some((parent_beacon_block_root, s)) =>
    match parse_opt_hash(s, flags & 0x20 != 0) { None => None, Some((requests_hash, s)) =>
    match parse_opt_hash(s, flags & 0x40 != 0) { None => None, Some((block_access_list_hash, s)) =>
    match parse_opt_u64(s, flags & 0x80 != 0) { None => None, Some((slot_number, s)) =>
    Some((BlockHeaderView {
        base_fee_per_gas, withdrawals_root, blob_gas_used, excess_blob_gas,
        parent_beacon_block_root, requests_hash, block_access_list_hash, slot_number, ..h
    }, s))
    }}}}}}}}
}

/// Reads a block header; each optional field is read exactly when its flag
/// bit is set, and the other bits of the flags byte are ignored.
pub open spec fn parse_header(s: Seq<u8>) -> Option<(BlockHeaderView, Seq<u8>)> {
    match parse_header_raw(s) { None => None, Some((h, s)) =>
    match parse_header_counters(h, s) { None => None, Some((h, s)) =>
    if s.len() == 0 {
        None
    } else {
        parse_header_optionals(h, s[0], s.subrange(1, s.len() as int))
    }}}
}

/// A header is written as its seven raw fields, then difficulty, number,
/// gas_limit, gas_used and timestamp as compact integers, extra_data as a
/// byte string, prev_randao raw, the nonce, the flags byte, and then each
/// optional field that is present, in flag order (a compact integer or 32
/// raw bytes).
pub proof fn lemma_header_layout(h: BlockHeaderView)
    ensures
        header_bytes(h) == (h.parent_hash + h.ommers_hash + h.coinbase + h.state_root
            + h.transactions_root + h.receipts_root + h.logs_bloom) + (compact_uint(h.difficulty)
            + compact_uint(h.number as nat) + compact_uint(h.gas_limit as nat) + compact_uint(
            h.gas_used as nat,
        ) + compact_uint(h.timestamp as nat) + compact_bytes(h.extra_data) + h.prev_randao
            + compact_uint(h.nonce as nat)) + seq![header_flags(h)] + ((match h.base_fee_per_gas { Some(v) => compact_uint(v as nat), None => Seq::<u8>::empty() }) + (match h.withdrawals_root { Some(x) => x, None => Seq::<u8>::empty() }) + (match h.blob_gas_used { Some(v) => compact_uint(v as nat), None => Seq::<u8>::empty() }) + (match h.excess_blob_gas { Some(v) => compact_uint(v as nat), None => Seq::<u8>::empty() }) + (match h.parent_beacon_block_root { Some(x) => x, None => Seq::<u8>::empty() })
            + (match h.requests_hash { Some(x) => x, None => Seq::<u8>::empty() }) + (match h.block_access_list_hash { Some(x) => x, None => Seq::<u8>::empty() }) + (match h.slot_number { Some(v) => compact_uint(v as nat), None => Seq::<u8>::empty() })),
{
    reveal(header_raw_part);
    reveal(header_counter_part);
    reveal(header_optional_part);
    reveal(crate::optional::opt_u64_bytes);
    reveal(crate::optional::opt_hash_bytes);
}

/// Each flag bit reads back whether its field is present.
pub proof fn lemma_flag_bits(a: bool, b: bool, c: bool, d: bool, e: bool, f: bool, g: bool, h: bool)
    ensures
        ({
            let x = flag(a, 0x01) | flag(b, 0x02) | flag(c, 0x04) | flag(d, 0x08) | flag(e, 0x10)
                | flag(f, 0x20) | flag(g, 0x40) | flag(h, 0x80);
            &&& (x & 0x01 != 0) == a
            &&& (x & 0x02 != 0) == b
            &&& (x & 0x04 != 0) == c
            &&& (x & 0x08 != 0) == d
            &&& (x & 0x10 != 0) == e
            &&& (x & 0x20 != 0) == f
            &&& (x & 0x40 != 0) == g
            &&& (x & 0x80 != 0) == h
        }),
{
    assert({
        let x = (if a { 0x01u8 } else { 0u8 }) | (if b { 0x02u8 } else { 0u8 }) | (if c {
            0x04u8
        } else {
            0u8
        }) | (if d { 0x08u8 } else { 0u8 }) | (if e { 0x10u8 } else { 0u8 }) | (if f {
            0x20u8
        } else {
            0u8
        }) | (if g { 0x40u8 } else { 0u8 }) | (if h { 0x80u8 } else { 0u8 });
        &&& (x & 0x01 != 0) == a
        &&& (x & 0x02 != 0) == b
        &&& (x & 0x04 != 0) == c
        &&& (x & 0x08 != 0) == d
        &&& (x & 0x10 != 0) == e
        &&& (x & 0x20 != 0) == f
        &&& (x & 0x40 != 0) == g
        &&& (x & 0x80 != 0) == h
    }) by (bit_vector);
}

/// Each bit of the flags byte tells whether its optional field is present.
pub proof fn lemma_header_flags(h: BlockHeaderView)
    ensures
        (header_flags(h) & 0x01 != 0) == (h.base_fee_per_gas is Some),
        (header_flags(h) & 0x02 != 0) == (h.withdrawals_root is Some),
        (header_flags(h) & 0x04 != 0) == (h.blob_gas_used is Some),
        (header_flags(h) & 0x08 != 0) == (h.excess_blob_gas is Some),
        (header_flags(h) & 0x10 != 0) == (h.parent_beacon_block_root is Some),
        (header_flags(h) & 0x20 != 0) == (h.requests_hash is Some),
        (header_flags(h) & 0x40 != 0) == (h.block_access_list_hash is Some),
        (header_flags(h) & 0x80 != 0) == (h.slot_number is Some),
{
    reveal(header_flags);
    lemma_flag_bits(
        h.base_fee_per_gas is Some,
        h.withdrawals_root is Some,
        h.blob_gas_used is Some,
        h.excess_blob_gas is Some,
        h.parent_beacon_block_root is Some,
        h.requests_hash is Some,
        h.block_access_list_hash is Some,
        h.slot_number is Some,
    );
}

proof fn lemma_header_raw_roundtrip(h: BlockHeaderView, rest: Seq<u8>)
    requires
        h.wf(),
    ensures
        parse_header_raw(header_raw_part(h) + rest) matches Some((g, r)) && r == rest
            && g.parent_hash == h.parent_hash && g.ommers_hash == h.ommers_hash && g.coinbase
            == h.coinbase && g.state_root == h.state_root && g.transactions_root
            == h.transactions_root && g.receipts_root == h.receipts_root && g.logs_bloom
            == h.logs_bloom,
{
    reveal(header_raw_part);
    reveal(parse_header_raw);
    let p1 = h.parent_hash;
    let p2 = h.ommers_hash;
    let p3 = h.coinbase;
    let p4 = h.state_root;
    let p5 = h.transactions_root;
    let p6 = h.receipts_root;
    let p7 = h.logs_bloom;
    let t6 = p7 + rest;
    let t5 = p6 + t6;
    let t4 = p5 + t5;
    let t3 = p4 + t4;
    let t2 = p3 + t3;
    let t1 = p2 + t2;
    lemma_assoc(p1 + p2 + p3 + p4 + p5 + p6, p7, rest);
    lemma_assoc(p1 + p2 + p3 + p4 + p5, p6, t6);
    lemma_assoc(p1 + p2 + p3 + p4, p5, t5);
    lemma_assoc(p1 + p2 + p3, p4, t4);
    lemma_assoc(p1 + p2, p3, t3);
    lemma_assoc(p1, p2, t2);
    assert(header_raw_part(h) + rest == p1 + t1);
    lemma_fixed_roundtrip(h.parent_hash, t1);
    lemma_fixed_roundtrip(h.ommers_hash, t2);
    lemma_fixed_roundtrip(h.coinbase, t3);
    lemma_fixed_roundtrip(h.state_root, t4);
    lemma_fixed_roundtrip(h.transactions_root, t5);
    lemma_fixed_roundtrip(h.receipts_root, t6);
    lemma_fixed_roundtrip(h.logs_bloom, rest);
}

proof fn lemma_header_counters_roundtrip(g: BlockHeaderView, h: BlockHeaderView, rest: Seq<u8>)
    requires
        h.encodable(),
    ensures
        parse_header_counters(g, header_counter_part(h) + rest) == Some(
            (
                BlockHeaderView {
                    difficulty: h.difficulty,
                    number: h.number,
                    gas_limit: h.gas_limit,
                    gas_used: h.gas_used,
                    timestamp: h.timestamp,
                    extra_data: h.extra_data,
                    prev_randao: h.prev_randao,
                    nonce: h.nonce,
                    ..g
                },
                rest,
            ),
        ),
{
    reveal(header_counter_part);
    reveal(parse_header_counters);
    let p1 = compact_uint(h.difficulty);
    let p2 = compact_uint(h.number as nat);
    let p3 = compact_uint(h.gas_limit as nat);
    let p4 = compact_uint(h.gas_used as nat);
    let p5 = compact_uint(h.timestamp as nat);
    let p6 = compact_bytes(h.extra_data);
    let p7 = h.prev_randao;
    let p8 = compact_uint(h.nonce as nat);
    let t7 = p8 + rest;
    let t6 = p7 + t7;
    let t5 = p6 + t6;
    let t4 = p5 + t5;
    let t3 = p4 + t4;
    let t2 = p3 + t3;
    let t1 = p2 + t2;
    lemma_assoc(p1 + p2 + p3 + p4 + p5 + p6 + p7, p8, rest);
    lemma_assoc(p1 + p2 + p3 + p4 + p5 + p6, p7, t7);
    lemma_assoc(p1 + p2 + p3 + p4 + p5, p6, t6);
    lemma_assoc(p1 + p2 + p3 + p4, p5, t5);
    lemma_assoc(p1 + p2 + p3, p4, t4);
    lemma_assoc(p1 + p2, p3, t3);
    lemma_assoc(p1, p2, t2);
    assert(header_counter_part(h) + rest == p1 + t1);
    crate::primitives::lemma_compact_uint_roundtrip(h.difficulty, 32, t1);
    lemma_u64_roundtrip(h.number, t2);
    lemma_u64_roundtrip(h.gas_limit, t3);
    lemma_u64_roundtrip(h.gas_used, t4);
    lemma_u64_roundtrip(h.timestamp, t5);
    lemma_bytes_roundtrip(h.extra_data, t6);
    lemma_fixed_roundtrip(h.prev_randao, t7);
    lemma_u64_roundtrip(h.nonce, rest);
}

proof fn lemma_header_optionals_roundtrip(g: BlockHeaderView, h: BlockHeaderView, rest: Seq<u8>)
    requires
        h.wf(),
    ensures
        parse_header_optionals(g, header_flags(h), header_optional_part(h) + rest) == Some(
            (
                BlockHeaderView {
                    base_fee_per_gas: h.base_fee_per_gas,
                    withdrawals_root: h.withdrawals_root,
                    blob_gas_used: h.blob_gas_used,
                    excess_blob_gas: h.excess_blob_gas,
                    parent_beacon_block_root: h.parent_beacon_block_root,
                    requests_hash: h.requests_hash,
                    block_access_list_hash: h.block_access_list_hash,
                    slot_number: h.slot_number,
                    ..g
                },
                rest,
            ),
        ),
{
    reveal(header_optional_part);
    reveal(parse_header_optionals);
    let p1 = opt_u64_bytes(h.base_fee_per_gas);
    let p2 = opt_hash_bytes(h.withdrawals_root);
    let p3 = opt_u64_bytes(h.blob_gas_used);
    let p4 = opt_u64_bytes(h.excess_blob_gas);
    let p5 = opt_hash_bytes(h.parent_beacon_block_root);
    let p6 = opt_hash_bytes(h.requests_hash);
    let p7 = opt_hash_bytes(h.block_access_list_hash);
    let p8 = opt_u64_bytes(h.slot_number);
    let t7 = p8 + rest;
    let t6 = p7 + t7;
    let t5 = p6 + t6;
    let t4 = p5 + t5;
    let t3 = p4 + t4;
    let t2 = p3 + t3;
    let t1 = p2 + t2;
    lemma_assoc(p1 + p2 + p3 + p4 + p5 + p6 + p7, p8, rest);
    lemma_assoc(p1 + p2 + p3 + p4 + p5 + p6, p7, t7);
    lemma_assoc(p1 + p2 + p3 + p4 + p5, p6, t6);
    lemma_assoc(p1 + p2 + p3 + p4, p5, t5);
    lemma_assoc(p1 + p2 + p3, p4, t4);
    lemma_assoc(p1 + p2, p3, t3);
    lemma_assoc(p1, p2, t2);
    assert(header_optional_part(h) + rest == p1 + t1);
    lemma_header_flags(h);
    lemma_opt_u64_roundtrip(h.base_fee_per_gas, t1);
    lemma_opt_hash_roundtrip(h.withdrawals_root, t2);
    lemma_opt_u64_roundtrip(h.blob_gas_used, t3);
    lemma_opt_u64_roundtrip(h.excess_blob_gas, t4);
    lemma_opt_hash_roundtrip(h.parent_beacon_block_root, t5);
    lemma_opt_hash_roundtrip(h.requests_hash, t6);
    lemma_opt_hash_roundtrip(h.block_access_list_hash, t7);
    lemma_opt_u64_roundtrip(h.slot_number, rest);
}

/// A header reads back from its encoding, leaving the bytes after it.
pub proof fn lemma_header_view_roundtrip(h: BlockHeaderView, rest: Seq<u8>)
    requires
        h.encodable(),
    ensures
        parse_header(header_bytes(h) + rest) == Some((h, rest)),
{
    let p1 = header_raw_part(h);
    let p2 = header_counter_part(h);
    let p3 = seq![header_flags(h)];
    let p4 = header_optional_part(h);
    let t3 = p4 + rest;
    let t2 = p3 + t3;
    let t1 = p2 + t2;
    lemma_assoc(p1 + p2 + p3, p4, rest);
    lemma_assoc(p1 + p2, p3, t3);
    lemma_assoc(p1, p2, t2);
    assert(header_bytes(h) + rest == p1 + t1);
    assert(t2[0] == header_flags(h));
    assert(t2.subrange(1, t2.len() as int) =~= t3);
    lemma_header_raw_roundtrip(h, t1);
    let g1 = parse_header_raw(header_raw_part(h) + t1).unwrap().0;
    lemma_header_counters_roundtrip(g1, h, t2);
    let g2 = parse_header_counters(g1, header_counter_part(h) + t2).unwrap().0;
    lemma_header_optionals_roundtrip(g2, h, rest);
}

/// Every header's view is well formed.
pub proof fn lemma_header_wf(h: BlockHeader)
    ensures
        h@.wf(),
{
    lemma_u256_bound(h.difficulty);
}

/// Decoding the encoding of a header gives the same header, and the bytes
/// after it are left as they were, whenever its extra data is shorter than
/// 2^32 bytes.
pub proof fn lemma_header_roundtrip(h: BlockHeader, rest: Seq<u8>)
    requires
        bytes_contents(h.extra_data).len() <= u32::MAX,
    ensures
        BlockHeader::compact_parse(h.compact_form() + rest) == Some((h@, rest)),
{
    lemma_header_wf(h);
    lemma_header_view_roundtrip(h@, rest);
}

fn encode_header_raw(h: &BlockHeader, buf: &mut Vec<u8>)
    ensures
        final(buf)@ == old(buf)@ + header_raw_part(h@),
{
    reveal(header_raw_part);
    push_slice(h.parent_hash.as_bytes(), buf);
    push_slice(h.ommers_hash.as_bytes(), buf);
    push_slice(h.coinbase.as_bytes(), buf);
    push_slice(h.state_root.as_bytes(), buf);
    push_slice(h.transactions_root.as_bytes(), buf);
    push_slice(h.receipts_root.as_bytes(), buf);
    push_slice(h.logs_bloom.as_bytes(), buf);
    assert(buf@ =~= old(buf)@ + header_raw_part(h@));
}

fn encode_header_counters(h: &BlockHeader, buf: &mut Vec<u8>)
    ensures
        final(buf)@ == old(buf)@ + header_counter_part(h@),
{
    reveal(header_counter_part);
    encode_u256(&h.difficulty, buf);
    encode_u64(h.number, buf);
    encode_u64(h.gas_limit, buf);
    encode_u64(h.gas_used, buf);
    encode_u64(h.timestamp, buf);
    encode_bytes(bytes_as_slice(&h.extra_data), buf);
    push_slice(h.prev_randao.as_bytes(), buf);
    encode_u64(h.nonce, buf);
    assert(buf@ =~= old(buf)@ + header_counter_part(h@));
}

fn header_flags_byte(h: &BlockHeader) -> (flags: u8)
    ensures
        flags == header_flags(h@),
{
    reveal(header_flags);
    flag_bit(h.base_fee_per_gas.is_some(), 0x01) | flag_bit(h.withdrawals_root.is_some(), 0x02)
        | flag_bit(h.blob_gas_used.is_some(), 0x04) | flag_bit(h.excess_blob_gas.is_some(), 0x08)
        | flag_bit(h.parent_beacon_block_root.is_some(), 0x10) | flag_bit(
        h.requests_hash.is_some(),
        0x20,
    ) | flag_bit(h.block_access_list_hash.is_some(), 0x40) | flag_bit(
        h.slot_number.is_some(),
        0x80,
    )
}

fn encode_header_optionals(h: &BlockHeader, buf: &mut Vec<u8>)
    ensures
        final(buf)@ == old(buf)@ + header_optional_part(h@),
{
    reveal(header_optional_part);
    encode_opt_u64(h.base_fee_per_gas, buf);
    encode_opt_hash(&h.withdrawals_root, buf);
    encode_opt_u64(h.blob_gas_used, buf);
    encode_opt_u64(h.excess_blob_gas, buf);
    encode_opt_hash(&h.parent_beacon_block_root, buf);
    encode_opt_hash(&h.requests_hash, buf);
    encode_opt_hash(&h.block_access_list_hash, buf);
    encode_opt_u64(h.slot_number, buf);
    assert(buf@ =~= old(buf)@ + header_optional_part(h@));
}

impl CompactEncode for BlockHeader {
    open spec fn compact_form(&self) -> Seq<u8> {
        header_bytes(self@)
    }

    fn compact_encode(&self, buf: &mut Vec<u8>) {
        encode_header_raw(self, buf);
        encode_header_counters(self, buf);
        buf.push(header_flags_byte(self));
        encode_header_optionals(self, buf);
        assert(buf@ =~= old(buf)@ + header_bytes(self@));
    }
}

fn decode_header_raw(buf: &[u8]) -> (res: Result<((H256, H256, Address, H256, H256, H256, Bloom), &[u8]), StoreError>)
    ensures
        res is Ok <==> parse_header_raw(buf@) is Some,
        res matches Ok((f, rest)) ==> parse_header_raw(buf@) matches Some((g, r)) && r == rest@
            && g.parent_hash == f.0@ && g.ommers_hash == f.1@ && g.coinbase == f.2@ && g.state_root
            == f.3@ && g.transactions_root == f.4@ && g.receipts_root == f.5@ && g.logs_bloom
            == f.6@,
{
    reveal(parse_header_raw);
    if buf.len() < 32 { return Err(StoreError::DecodeError); }
    let (b, buf) = buf.split_at(32);
    let parent_hash = H256::from_slice(b);

    if buf.len() < 32 { return Err(StoreError::DecodeError); }
    let (b, buf) = buf.split_at(32);
    let ommers_hash = H256::from_slice(b);

    if buf.len() < 20 { return Err(StoreError::DecodeError); }
    let (b, buf) = buf.split_at(20);
    let coinbase = Address::from_slice(b);

    if buf.len() < 32 { return Err(StoreError::DecodeError); }
    let (b, buf) = buf.split_at(32);
    let state_root = H256::from_slice(b);

    if buf.len() < 32 { return Err(StoreError::DecodeError); }
    let (b, buf) = buf.split_at(32);
    let transactions_root = H256::from_slice(b);

    if buf.len() < 32 { return Err(StoreError::DecodeError); }
    let (b, buf) = buf.split_at(32);
    let receipts_root = H256::from_slice(b);

    if buf.len() < 256 { return Err(StoreError::DecodeError); }
    let (b, buf) = buf.split_at(256);
    let logs_bloom = Bloom::from_slice(b);

    Ok(((parent_hash, ommers_hash, coinbase, state_root, transactions_root, receipts_root, logs_bloom), buf))
}

fn decode_header_counters(buf: &[u8], Ghost(g): Ghost<BlockHeaderView>) -> (res: Result<
    ((U256, u64, u64, u64, u64, bytes::Bytes, H256, u64), &[u8]),
    StoreError,
>)
    ensures
        res is Ok <==> parse_header_counters(g, buf@) is Some,
        res matches Ok((c, rest)) ==> parse_header_counters(g, buf@) == Some(
            (
                BlockHeaderView {
                    difficulty: c.0@,
                    number: c.1,
                    gas_limit: c.2,
                    gas_used: c.3,
                    timestamp: c.4,
                    extra_data: bytes_contents(c.5),
                    prev_randao: c.6@,
                    nonce: c.7,
                    ..g
                },
                rest@,
            ),
        ),
{
    reveal(parse_header_counters);
    let (difficulty, buf) = decode_u256(buf)?;
    let (number, buf) = decode_u64(buf)?;
    let (gas_limit, buf) = decode_u64(buf)?;
    let (gas_used, buf) = decode_u64(buf)?;
    let (timestamp, buf) = decode_u64(buf)?;

    let (extra_data_bytes, buf) = decode_bytes(buf)?;
    let extra_data = bytes_copy_from_slice(extra_data_bytes);

    if buf.len() < 32 { return Err(StoreError::DecodeError); }
    let (b, buf) = buf.split_at(32);
    let prev_randao = H256::from_slice(b);

    let (nonce, buf) = decode_u64(buf)?;
    Ok(((difficulty, number, gas_limit, gas_used, timestamp, extra_data, prev_randao, nonce), buf))
}

fn decode_header_optionals(buf: &[u8], flags: u8, Ghost(g): Ghost<BlockHeaderView>) -> (res: Result<
    (
        (
            Option<u64>,
            Option<H256>,
            Option<u64>,
            Option<u64>,
            Option<H256>,
            Option<H256>,
            Option<H256>,
            Option<u64>,
        ),
        &[u8],
    ),
    StoreError,
>)
    ensures
        res is Ok <==> parse_header_optionals(g, flags, buf@) is Some,
        res matches Ok((o, rest)) ==> parse_header_optionals(g, flags, buf@) == Some(
            (
                BlockHeaderView {
                    base_fee_per_gas: o.0,
                    withdrawals_root: opt_view(o.1),
                    blob_gas_used: o.2,
                    excess_blob_gas: o.3,
                    parent_beacon_block_root: opt_view(o.4),
                    requests_hash: opt_view(o.5),
                    block_access_list_hash: opt_view(o.6),
                    slot_number: o.7,
                    ..g
                },
                rest@,
            ),
        ),
{
    reveal(parse_header_optionals);
    let (base_fee_per_gas, buf) = decode_opt_u64(buf, flags & 0x01 != 0)?;
    let (withdrawals_root, buf) = decode_opt_hash(buf, flags & 0x02 != 0)?;
    let (blob_gas_used, buf) = decode_opt_u64(buf, flags & 0x04 != 0)?;
    let (excess_blob_gas, buf) = decode_opt_u64(buf, flags & 0x08 != 0)?;
    let (parent_beacon_block_root, buf) = decode_opt_hash(buf, flags & 0x10 != 0)?;
    let (requests_hash, buf) = decode_opt_hash(buf, flags & 0x20 != 0)?;
    let (block_access_list_hash, buf) = decode_opt_hash(buf, flags & 0x40 != 0)?;
    let (slot_number, buf) = decode_opt_u64(buf, flags & 0x80 != 0)?;
    Ok((
        (
            base_fee_per_gas,
            withdrawals_root,
            blob_gas_used,
            excess_blob_gas,
            parent_beacon_block_root,
            requests_hash,
            block_access_list_hash,
            slot_number,
        ),
        buf,
    ))
}

impl CompactDecode for BlockHeader {
    open spec fn compact_parse(buf: Seq<u8>) -> Option<(BlockHeaderView, Seq<u8>)> {
        parse_header(buf)
    }

    fn compact_decode(buf: &[u8]) -> (res: Result<(Self, &[u8]), StoreError>) {
        let ghost input = buf@;
        let (
            (parent_hash, ommers_hash, coinbase, state_root, transactions_root, receipts_root, logs_bloom),
            buf,
        ) = decode_header_raw(buf)?;
        let ghost g1 = parse_header_raw(input).unwrap().0;
        let (
            (difficulty, number, gas_limit, gas_used, timestamp, extra_data, prev_randao, nonce),
            buf,
        ) = decode_header_counters(buf, Ghost(g1))?;
        let ghost g2 = parse_header_counters(g1, parse_header_raw(input).unwrap().1).unwrap().0;

        if buf.len() == 0 {
            return Err(StoreError::DecodeError);
        }
        let flags = buf[0];
        let (_, buf) = buf.split_at(1);

        let (
            (
                base_fee_per_gas,
                withdrawals_root,
                blob_gas_used,
                excess_blob_gas,
                parent_beacon_block_root,
                requests_hash,
                block_access_list_hash,
                slot_number,
            ),
            buf,
        ) = decode_header_optionals(buf, flags, Ghost(g2))?;

        Ok((
            BlockHeader {
                parent_hash,
                ommers_hash,
                coinbase,
                state_root,
                transactions_root,
                receipts_root,
                logs_bloom,
                difficulty,
                number,
                gas_limit,
                gas_used,
                timestamp,
                extra_data,
                prev_randao,
                nonce,
                base_fee_per_gas,
                withdrawals_root,
                blob_gas_used,
                excess_blob_gas,
                parent_beacon_block_root,
                requests_hash,
                block_access_list_hash,
                slot_number,
            },
            buf,
        ))
    }
}

} // verus!
