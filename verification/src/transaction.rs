//! Transactions of every kind.
use vstd::prelude::*;

use crate::codec::{CompactDecode, CompactEncode};
use crate::error::StoreError;
use crate::fixed::{
    all_hashes, hash_enc, hash_parser, lemma_fixed_roundtrip, lemma_hashes_roundtrip, parse_fixed, Address, H256, U256,
};
use crate::lists::{
    lemma_assoc,
    lemma_parse_seq_fails, lemma_seq_bytes_push, lemma_take_push, lemma_views_push,
    parse_seq, seq_bytes, views,
};
use crate::primitives::{
    compact_bytes, compact_uint, decode_bytes, decode_u256, decode_u32, decode_u64, encode_bytes,
    encode_u256, encode_u32, encode_u64, len_as_u32, len_prefix, lemma_bytes_roundtrip,
    lemma_compact_uint_roundtrip, lemma_u32_roundtrip, lemma_u64_roundtrip, parse_bytes, parse_u256,
    parse_u32, parse_u64, pow256, push_slice,
};
use crate::shared_bytes::{bytes_as_slice, bytes_contents, bytes_copy_from_slice};
use crate::tx_fields::{
    access_list_bytes, access_list_encodable, access_list_view, auth_list_bytes, auth_list_encodable,
    decode_access_list, decode_authorization_list, decode_txkind, encode_access_list,
    encode_authorization_list, encode_txkind, lemma_access_list_roundtrip, lemma_auth_list_roundtrip,
    parse_access_list, parse_auth_list, parse_txkind, txkind_bytes, AccessList, AuthorizationList,
    AuthorizationTupleView, TxKind, TxKindView, lemma_txkind_roundtrip,
};
use crate::tx_type::{lemma_tx_type_roundtrip, TxType};

verus! {

/// The view of an access list.
pub type AccessListView = Seq<(Seq<u8>, Seq<Seq<u8>>)>;

// ---------------------------------------------------------------------------
// Field groups that several kinds of transaction share
// ---------------------------------------------------------------------------

/// chain_id, nonce, max_priority_fee_per_gas, max_fee_per_gas and the gas
/// limit, as compact u64s.
pub open spec fn fee_fields_bytes(f: (u64, u64, u64, u64, u64)) -> Seq<u8> {
    compact_uint(f.0 as nat) + compact_uint(f.1 as nat) + compact_uint(f.2 as nat) + compact_uint(
        f.3 as nat,
    ) + compact_uint(f.4 as nat)
}

pub open spec fn parse_fee_fields(s: Seq<u8>) -> Option<((u64, u64, u64, u64, u64), Seq<u8>)> {
    match parse_u64(s) { None => None, Some((a, s)) =>
    match parse_u64(s) { None => None, Some((b, s)) =>
    match parse_u64(s) { None => None, Some((c, s)) =>
    match parse_u64(s) { None => None, Some((d, s)) =>
    match parse_u64(s) { None => None, Some((e, s)) =>
    Some(((a, b, c, d, e), s))
    }}}}}
}

proof fn lemma_fee_fields_roundtrip(f: (u64, u64, u64, u64, u64), rest: Seq<u8>)
    ensures
        parse_fee_fields(fee_fields_bytes(f) + rest) == Some((f, rest)),
{
    let p1 = compact_uint(f.0 as nat);
    let p2 = compact_uint(f.1 as nat);
    let p3 = compact_uint(f.2 as nat);
    let p4 = compact_uint(f.3 as nat);
    let p5 = compact_uint(f.4 as nat);
    let t4 = p5 + rest;
    let t3 = p4 + t4;
    let t2 = p3 + t3;
    let t1 = p2 + t2;
    lemma_assoc(p1 + p2 + p3 + p4, p5, rest);
    lemma_assoc(p1 + p2 + p3, p4, t4);
    lemma_assoc(p1 + p2, p3, t3);
    lemma_assoc(p1, p2, t2);
    assert(fee_fields_bytes(f) + rest == p1 + t1);
    lemma_u64_roundtrip(f.0, t1);
    lemma_u64_roundtrip(f.1, t2);
    lemma_u64_roundtrip(f.2, t3);
    lemma_u64_roundtrip(f.3, t4);
    lemma_u64_roundtrip(f.4, rest);
}

fn encode_fee_fields(f: (u64, u64, u64, u64, u64), buf: &mut Vec<u8>)
    ensures
        final(buf)@ == old(buf)@ + fee_fields_bytes(f),
{
    encode_u64(f.0, buf);
    encode_u64(f.1, buf);
    encode_u64(f.2, buf);
    encode_u64(f.3, buf);
    encode_u64(f.4, buf);
    assert(buf@ =~= old(buf)@ + fee_fields_bytes(f));
}

fn decode_fee_fields(buf: &[u8]) -> (res: Result<((u64, u64, u64, u64, u64), &[u8]), StoreError>)
    ensures
        res is Ok <==> parse_fee_fields(buf@) is Some,
        res matches Ok((f, rest)) ==> parse_fee_fields(buf@) == Some((f, rest@)),
{
    let (a, buf) = decode_u64(buf)?;
    let (b, buf) = decode_u64(buf)?;
    let (c, buf) = decode_u64(buf)?;
    let (d, buf) = decode_u64(buf)?;
    let (e, buf) = decode_u64(buf)?;
    Ok(((a, b, c, d, e), buf))
}

/// The value, the call data and the access list.
pub open spec fn payload_bytes(value: nat, data: Seq<u8>, access_list: AccessListView) -> Seq<u8> {
    compact_uint(value) + compact_bytes(data) + access_list_bytes(access_list)
}

pub open spec fn parse_payload(s: Seq<u8>) -> Option<((nat, Seq<u8>, AccessListView), Seq<u8>)> {
    match parse_u256(s) { None => None, Some((value, s)) =>
    match parse_bytes(s) { None => None, Some((data, s)) =>
    match parse_access_list(s) { None => None, Some((access_list, s)) =>
    Some(((value, data, access_list), s))
    }}}
}

pub open spec fn payload_encodable(value: nat, data: Seq<u8>, access_list: AccessListView) -> bool {
    value < pow256(32) && data.len() <= u32::MAX && access_list_encodable(access_list)
}

proof fn lemma_payload_roundtrip(value: nat, data: Seq<u8>, access_list: AccessListView, rest: Seq<u8>)
    requires
        payload_encodable(value, data, access_list),
    ensures
        parse_payload(payload_bytes(value, data, access_list) + rest) == Some(
            ((value, data, access_list), rest),
        ),
{
    let p1 = compact_uint(value);
    let p2 = compact_bytes(data);
    let p3 = access_list_bytes(access_list);
    let t2 = p3 + rest;
    let t1 = p2 + t2;
    lemma_assoc(p1 + p2, p3, rest);
    lemma_assoc(p1, p2, t2);
    assert(payload_bytes(value, data, access_list) + rest == p1 + t1);
    lemma_compact_uint_roundtrip(value, 32, t1);
    lemma_bytes_roundtrip(data, t2);
    lemma_access_list_roundtrip(access_list, rest);
}

fn encode_payload(value: &U256, data: &bytes::Bytes, access_list: &AccessList, buf: &mut Vec<u8>)
    ensures
        final(buf)@ == old(buf)@ + payload_bytes(
            value@,
            bytes_contents(*data),
            access_list_view(*access_list),
        ),
{
    encode_u256(value, buf);
    encode_bytes(bytes_as_slice(data), buf);
    encode_access_list(access_list, buf);
    assert(buf@ =~= old(buf)@ + payload_bytes(
        value@,
        bytes_contents(*data),
        access_list_view(*access_list),
    ));
}

fn decode_payload(buf: &[u8]) -> (res: Result<((U256, bytes::Bytes, AccessList), &[u8]), StoreError>)
    ensures
        res is Ok <==> parse_payload(buf@) is Some,
        res matches Ok((p, rest)) ==> parse_payload(buf@) == Some(
            ((p.0@, bytes_contents(p.1), access_list_view(p.2)), rest@),
        ),
{
    let (value, buf) = decode_u256(buf)?;
    let (data_bytes, buf) = decode_bytes(buf)?;
    let data = bytes_copy_from_slice(data_bytes);
    let (access_list, buf) = decode_access_list(buf)?;
    Ok(((value, data, access_list), buf))
}

/// The y parity as one byte (1 for true, 0 for false), then r and s as
/// compact U256s.
pub open spec fn signature_bytes(y_parity: bool, r: nat, s: nat) -> Seq<u8> {
    seq![if y_parity { 1u8 } else { 0u8 }] + compact_uint(r) + compact_uint(s)
}

/// Reads a signature; any non-zero parity byte reads as true.
pub open spec fn parse_signature(s: Seq<u8>) -> Option<((bool, nat, nat), Seq<u8>)> {
    if s.len() == 0 {
        None
    } else {
        let y_parity = s[0] != 0;
        let s1 = s.subrange(1, s.len() as int);
        match parse_u256(s1) { None => None, Some((r, s2)) =>
        match parse_u256(s2) { None => None, Some((sv, s3)) =>
        Some(((y_parity, r, sv), s3))
        }}
    }
}

proof fn lemma_signature_roundtrip(y_parity: bool, r: nat, sv: nat, rest: Seq<u8>)
    requires
        r < pow256(32),
        sv < pow256(32),
    ensures
        parse_signature(signature_bytes(y_parity, r, sv) + rest) == Some(((y_parity, r, sv), rest)),
{
    let t2 = compact_uint(sv) + rest;
    let t1 = compact_uint(r) + t2;
    let s = signature_bytes(y_parity, r, sv) + rest;
    assert(s =~= seq![if y_parity { 1u8 } else { 0u8 }] + t1);
    assert(s.subrange(1, s.len() as int) =~= t1);
    lemma_compact_uint_roundtrip(r, 32, t2);
    lemma_compact_uint_roundtrip(sv, 32, rest);
}

fn encode_signature(y_parity: bool, r: &U256, s: &U256, buf: &mut Vec<u8>)
    ensures
        final(buf)@ == old(buf)@ + signature_bytes(y_parity, r@, s@),
{
    buf.push(if y_parity { 1 } else { 0 });
    encode_u256(r, buf);
    encode_u256(s, buf);
    assert(buf@ =~= old(buf)@ + signature_bytes(y_parity, r@, s@));
}

fn decode_signature(buf: &[u8]) -> (res: Result<((bool, U256, U256), &[u8]), StoreError>)
    ensures
        res is Ok <==> parse_signature(buf@) is Some,
        res matches Ok((g, rest)) ==> parse_signature(buf@) == Some(((g.0, g.1@, g.2@), rest@)),
{
    if buf.len() == 0 {
        return Err(StoreError::DecodeError);
    }
    let sig_y = buf[0];
    let (_, buf) = buf.split_at(1);
    let (signature_r, buf) = decode_u256(buf)?;
    let (signature_s, buf) = decode_u256(buf)?;
    Ok(((sig_y != 0, signature_r, signature_s), buf))
}

// ---------------------------------------------------------------------------
// Legacy
// ---------------------------------------------------------------------------

#[derive(Debug, PartialEq, Eq)]
pub struct LegacyTransaction {
    pub nonce: u64,
    pub gas_price: U256,
    pub gas: u64,
    pub to: TxKind,
    pub value: U256,
    pub data: bytes::Bytes,
    pub v: U256,
    pub r: U256,
    pub s: U256,
}

pub struct LegacyTransactionView {
    pub nonce: u64,
    pub gas_price: nat,
    pub gas: u64,
    pub to: TxKindView,
    pub value: nat,
    pub data: Seq<u8>,
    pub v: nat,
    pub r: nat,
    pub s: nat,
}

impl View for LegacyTransaction {
    type V = LegacyTransactionView;

    open spec fn view(&self) -> LegacyTransactionView {
        LegacyTransactionView {
            nonce: self.nonce,
            gas_price: self.gas_price@,
            gas: self.gas,
            to: self.to@,
            value: self.value@,
            data: bytes_contents(self.data),
            v: self.v@,
            r: self.r@,
            s: self.s@,
        }
    }
}

impl LegacyTransactionView {
    pub open spec fn encodable(self) -> bool {
        &&& self.gas_price < pow256(32)
        &&& self.to.wf()
        &&& self.value < pow256(32)
        &&& self.data.len() <= u32::MAX
        &&& self.v < pow256(32)
        &&& self.r < pow256(32)
        &&& self.s < pow256(32)
    }
}

/// Legacy layout: nonce, gas_price, gas, to, value, data, v, r, s.
#[verifier::opaque]
pub open spec fn legacy_bytes(t: LegacyTransactionView) -> Seq<u8> {
    compact_uint(t.nonce as nat) + compact_uint(t.gas_price) + compact_uint(t.gas as nat)
        + txkind_bytes(t.to) + compact_uint(t.value) + compact_bytes(t.data) + compact_uint(t.v)
        + compact_uint(t.r) + compact_uint(t.s)
}

#[verifier::opaque]
pub open spec fn parse_legacy(s: Seq<u8>) -> Option<(LegacyTransactionView, Seq<u8>)> {
    match parse_u64(s) { None => None, Some((nonce, s)) =>
    match parse_u256(s) { None => None, Some((gas_price, s)) =>
    match parse_u64(s) { None => None, Some((gas, s)) =>
    match parse_txkind(s) { None => None, Some((to, s)) =>
    match parse_u256(s) { None => None, Some((value, s)) =>
    match parse_bytes(s) { None => None, Some((data, s)) =>
    match parse_u256(s) { None => None, Some((v, s)) =>
    match parse_u256(s) { None => None, Some((r, s)) =>
    match parse_u256(s) { None => None, Some((sv, s)) =>
    Some((LegacyTransactionView { nonce, gas_price, gas, to, value, data, v, r, s: sv }, s))
    }}}}}}}}}
}

proof fn lemma_legacy_roundtrip(t: LegacyTransactionView, rest: Seq<u8>)
    requires
        t.encodable(),
    ensures
        parse_legacy(legacy_bytes(t) + rest) == Some((t, rest)),
{
    reveal(parse_legacy);
    reveal(legacy_bytes);
    let p1 = compact_uint(t.nonce as nat);
    let p2 = compact_uint(t.gas_price);
    let p3 = compact_uint(t.gas as nat);
    let p4 = txkind_bytes(t.to);
    let p5 = compact_uint(t.value);
    let p6 = compact_bytes(t.data);
    let p7 = compact_uint(t.v);
    let p8 = compact_uint(t.r);
    let p9 = compact_uint(t.s);
    let t8 = p9 + rest;
    let t7 = p8 + t8;
    let t6 = p7 + t7;
    let t5 = p6 + t6;
    let t4 = p5 + t5;
    let t3 = p4 + t4;
    let t2 = p3 + t3;
    let t1 = p2 + t2;
    lemma_assoc(p1 + p2 + p3 + p4 + p5 + p6 + p7 + p8, p9, rest);
    lemma_assoc(p1 + p2 + p3 + p4 + p5 + p6 + p7, p8, t8);
    lemma_assoc(p1 + p2 + p3 + p4 + p5 + p6, p7, t7);
    lemma_assoc(p1 + p2 + p3 + p4 + p5, p6, t6);
    lemma_assoc(p1 + p2 + p3 + p4, p5, t5);
    lemma_assoc(p1 + p2 + p3, p4, t4);
    lemma_assoc(p1 + p2, p3, t3);
    lemma_assoc(p1, p2, t2);
    assert(legacy_bytes(t) + rest == p1 + t1);
    lemma_u64_roundtrip(t.nonce, t1);
    lemma_compact_uint_roundtrip(t.gas_price, 32, t2);
    lemma_u64_roundtrip(t.gas, t3);
    lemma_txkind_roundtrip(t.to, t4);
    lemma_compact_uint_roundtrip(t.value, 32, t5);
    lemma_bytes_roundtrip(t.data, t6);
    lemma_compact_uint_roundtrip(t.v, 32, t7);
    lemma_compact_uint_roundtrip(t.r, 32, t8);
    lemma_compact_uint_roundtrip(t.s, 32, rest);
}

fn encode_legacy(tx: &LegacyTransaction, buf: &mut Vec<u8>)
    ensures
        final(buf)@ == old(buf)@ + legacy_bytes(tx@),
{
    reveal(legacy_bytes);
    encode_u64(tx.nonce, buf);
    encode_u256(&tx.gas_price, buf);
    encode_u64(tx.gas, buf);
    encode_txkind(&tx.to, buf);
    encode_u256(&tx.value, buf);
    encode_bytes(bytes_as_slice(&tx.data), buf);
    encode_u256(&tx.v, buf);
    encode_u256(&tx.r, buf);
    encode_u256(&tx.s, buf);
    assert(buf@ =~= old(buf)@ + legacy_bytes(tx@));
}

fn decode_legacy(buf: &[u8]) -> (res: Result<(LegacyTransaction, &[u8]), StoreError>)
    ensures
        res is Ok <==> parse_legacy(buf@) is Some,
        res matches Ok((t, rest)) ==> parse_legacy(buf@) == Some((t@, rest@)),
{
    reveal(parse_legacy);
    let (nonce, buf) = decode_u64(buf)?;
    let (gas_price, buf) = decode_u256(buf)?;
    let (gas, buf) = decode_u64(buf)?;
    let (to, buf) = decode_txkind(buf)?;
    let (value, buf) = decode_u256(buf)?;
    let (data_bytes, buf) = decode_bytes(buf)?;
    let data = bytes_copy_from_slice(data_bytes);
    let (v, buf) = decode_u256(buf)?;
    let (r, buf) = decode_u256(buf)?;
    let (s, buf) = decode_u256(buf)?;
    Ok((LegacyTransaction { nonce, gas_price, gas, to, value, data, v, r, s }, buf))
}

// ---------------------------------------------------------------------------
// EIP-2930
// ---------------------------------------------------------------------------

#[derive(Debug, PartialEq, Eq)]
pub struct EIP2930Transaction {
    pub chain_id: u64,
    pub nonce: u64,
    pub gas_price: U256,
    pub gas_limit: u64,
    pub to: TxKind,
    pub value: U256,
    pub data: bytes::Bytes,
    pub access_list: AccessList,
    pub signature_y_parity: bool,
    pub signature_r: U256,
    pub signature_s: U256,
}

pub struct EIP2930TransactionView {
    pub chain_id: u64,
    pub nonce: u64,
    pub gas_price: nat,
    pub gas_limit: u64,
    pub to: TxKindView,
    pub value: nat,
    pub data: Seq<u8>,
    pub access_list: AccessListView,
    pub signature_y_parity: bool,
    pub signature_r: nat,
    pub signature_s: nat,
}

impl View for EIP2930Transaction {
    type V = EIP2930TransactionView;

    open spec fn view(&self) -> EIP2930TransactionView {
        EIP2930TransactionView {
            chain_id: self.chain_id,
            nonce: self.nonce,
            gas_price: self.gas_price@,
            gas_limit: self.gas_limit,
            to: self.to@,
            value: self.value@,
            data: bytes_contents(self.data),
            access_list: access_list_view(self.access_list),
            signature_y_parity: self.signature_y_parity,
            signature_r: self.signature_r@,
            signature_s: self.signature_s@,
        }
    }
}

impl EIP2930TransactionView {
    pub open spec fn encodable(self) -> bool {
        &&& self.gas_price < pow256(32)
        &&& self.to.wf()
        &&& payload_encodable(self.value, self.data, self.access_list)
        &&& self.signature_r < pow256(32)
        &&& self.signature_s < pow256(32)
    }
}

/// EIP-2930 layout: chain_id, nonce, gas_price, gas_limit, to, value, data,
/// access_list, signature.
#[verifier::opaque]
pub open spec fn eip2930_bytes(t: EIP2930TransactionView) -> Seq<u8> {
    compact_uint(t.chain_id as nat) + compact_uint(t.nonce as nat) + compact_uint(t.gas_price)
        + compact_uint(t.gas_limit as nat) + txkind_bytes(t.to) + payload_bytes(
        t.value,
        t.data,
        t.access_list,
    ) + signature_bytes(t.signature_y_parity, t.signature_r, t.signature_s)
}

#[verifier::opaque]
pub open spec fn parse_eip2930(s: Seq<u8>) -> Option<(EIP2930TransactionView, Seq<u8>)> {
    match parse_u64(s) { None => None, Some((chain_id, s)) =>
    match parse_u64(s) { None => None, Some((nonce, s)) =>
    match parse_u256(s) { None => None, Some((gas_price, s)) =>
    match parse_u64(s) { None => None, Some((gas_limit, s)) =>
    match parse_txkind(s) { None => None, Some((to, s)) =>
    match parse_payload(s) { None => None, Some((p, s)) =>
    match parse_signature(s) { None => None, Some((g, s)) =>
    Some((EIP2930TransactionView {
        chain_id, nonce, gas_price, gas_limit, to,
        value: p.0, data: p.1, access_list: p.2,
        signature_y_parity: g.0, signature_r: g.1, signature_s: g.2,
    }, s))
    }}}}}}}
}

proof fn lemma_eip2930_roundtrip(t: EIP2930TransactionView, rest: Seq<u8>)
    requires
        t.encodable(),
    ensures
        parse_eip2930(eip2930_bytes(t) + rest) == Some((t, rest)),
{
    reveal(parse_eip2930);
    reveal(eip2930_bytes);
    let p1 = compact_uint(t.chain_id as nat);
    let p2 = compact_uint(t.nonce as nat);
    let p3 = compact_uint(t.gas_price);
    let p4 = compact_uint(t.gas_limit as nat);
    let p5 = txkind_bytes(t.to);
    let p6 = payload_bytes(t.value, t.data, t.access_list);
    let p7 = signature_bytes(t.signature_y_parity, t.signature_r, t.signature_s);
    let t6 = p7 + rest;
    let t5 = p6 + t6;
    let t4 = p5 + t5;
    let t3 = p4 + t4;
    let t2 = p3 + t3;
    let t1 = p2 + t2;
    lemma_assoc(p1 + p2 + p3 + p4 + p5 + p6, p7, rest);
    lemma_assoc(p1 + p2 + p3 + p4 + p5, p6, t6);
    lemma_assoc(p1 + p2 + p3 + p4, p5, t5);
    lemma_assoc(p1 + p2 + p3, p4, t4);
    lemma_assoc(p1 + p2, p3, t3);
    lemma_assoc(p1, p2, t2);
    assert(eip2930_bytes(t) + rest == p1 + t1);
    lemma_u64_roundtrip(t.chain_id, t1);
    lemma_u64_roundtrip(t.nonce, t2);
    lemma_compact_uint_roundtrip(t.gas_price, 32, t3);
    lemma_u64_roundtrip(t.gas_limit, t4);
    lemma_txkind_roundtrip(t.to, t5);
    lemma_payload_roundtrip(t.value, t.data, t.access_list, t6);
    lemma_signature_roundtrip(t.signature_y_parity, t.signature_r, t.signature_s, rest);
}

fn encode_eip2930(tx: &EIP2930Transaction, buf: &mut Vec<u8>)
    ensures
        final(buf)@ == old(buf)@ + eip2930_bytes(tx@),
{
    reveal(eip2930_bytes);
    encode_u64(tx.chain_id, buf);
    encode_u64(tx.nonce, buf);
    encode_u256(&tx.gas_price, buf);
    encode_u64(tx.gas_limit, buf);
    encode_txkind(&tx.to, buf);
    encode_payload(&tx.value, &tx.data, &tx.access_list, buf);
    encode_signature(tx.signature_y_parity, &tx.signature_r, &tx.signature_s, buf);
    assert(buf@ =~= old(buf)@ + eip2930_bytes(tx@));
}

fn decode_eip2930(buf: &[u8]) -> (res: Result<(EIP2930Transaction, &[u8]), StoreError>)
    ensures
        res is Ok <==> parse_eip2930(buf@) is Some,
        res matches Ok((t, rest)) ==> parse_eip2930(buf@) == Some((t@, rest@)),
{
    reveal(parse_eip2930);
    let (chain_id, buf) = decode_u64(buf)?;
    let (nonce, buf) = decode_u64(buf)?;
    let (gas_price, buf) = decode_u256(buf)?;
    let (gas_limit, buf) = decode_u64(buf)?;
    let (to, buf) = decode_txkind(buf)?;
    let ((value, data, access_list), buf) = decode_payload(buf)?;
    let ((signature_y_parity, signature_r, signature_s), buf) = decode_signature(buf)?;
    Ok((
        EIP2930Transaction {
            chain_id,
            nonce,
            gas_price,
            gas_limit,
            to,
            value,
            data,
            access_list,
            signature_y_parity,
            signature_r,
            signature_s,
        },
        buf,
    ))
}

// ---------------------------------------------------------------------------
// EIP-1559
// ---------------------------------------------------------------------------

#[derive(Debug, PartialEq, Eq)]
pub struct EIP1559Transaction {
    pub chain_id: u64,
    pub nonce: u64,
    pub max_priority_fee_per_gas: u64,
    pub max_fee_per_gas: u64,
    pub gas_limit: u64,
    pub to: TxKind,
    pub value: U256,
    pub data: bytes::Bytes,
    pub access_list: AccessList,
    pub signature_y_parity: bool,
    pub signature_r: U256,
    pub signature_s: U256,
}

pub struct EIP1559TransactionView {
    pub chain_id: u64,
    pub nonce: u64,
    pub max_priority_fee_per_gas: u64,
    pub max_fee_per_gas: u64,
    pub gas_limit: u64,
    pub to: TxKindView,
    pub value: nat,
    pub data: Seq<u8>,
    pub access_list: AccessListView,
    pub signature_y_parity: bool,
    pub signature_r: nat,
    pub signature_s: nat,
}

impl View for EIP1559Transaction {
    type V = EIP1559TransactionView;

    open spec fn view(&self) -> EIP1559TransactionView {
        EIP1559TransactionView {
            chain_id: self.chain_id,
            nonce: self.nonce,
            max_priority_fee_per_gas: self.max_priority_fee_per_gas,
            max_fee_per_gas: self.max_fee_per_gas,
            gas_limit: self.gas_limit,
            to: self.to@,
            value: self.value@,
            data: bytes_contents(self.data),
            access_list: access_list_view(self.access_list),
            signature_y_parity: self.signature_y_parity,
            signature_r: self.signature_r@,
            signature_s: self.signature_s@,
        }
    }
}

impl EIP1559TransactionView {
    pub open spec fn fees(self) -> (u64, u64, u64, u64, u64) {
        (self.chain_id, self.nonce, self.max_priority_fee_per_gas, self.max_fee_per_gas, self.gas_limit)
    }

    pub open spec fn encodable(self) -> bool {
        &&& self.to.wf()
        &&& payload_encodable(self.value, self.data, self.access_list)
        &&& self.signature_r < pow256(32)
        &&& self.signature_s < pow256(32)
    }
}

/// EIP-1559 layout: chain_id, nonce, max_priority_fee_per_gas,
/// max_fee_per_gas, gas_limit, to, value, data, access_list, signature.
#[verifier::opaque]
pub open spec fn eip1559_bytes(t: EIP1559TransactionView) -> Seq<u8> {
    fee_fields_bytes(t.fees()) + txkind_bytes(t.to) + payload_bytes(t.value, t.data, t.access_list)
        + signature_bytes(t.signature_y_parity, t.signature_r, t.signature_s)
}

#[verifier::opaque]
pub open spec fn parse_eip1559(s: Seq<u8>) -> Option<(EIP1559TransactionView, Seq<u8>)> {
    match parse_fee_fields(s) { None => None, Some((f, s)) =>
    match parse_txkind(s) { None => None, Some((to, s)) =>
    match parse_payload(s) { None => None, Some((p, s)) =>
    match parse_signature(s) { None => None, Some((g, s)) =>
    Some((EIP1559TransactionView {
        chain_id: f.0, nonce: f.1, max_priority_fee_per_gas: f.2, max_fee_per_gas: f.3,
        gas_limit: f.4, to, value: p.0, data: p.1, access_list: p.2,
        signature_y_parity: g.0, signature_r: g.1, signature_s: g.2,
    }, s))
    }}}}
}

proof fn lemma_eip1559_roundtrip(t: EIP1559TransactionView, rest: Seq<u8>)
    requires
        t.encodable(),
    ensures
        parse_eip1559(eip1559_bytes(t) + rest) == Some((t, rest)),
{
    reveal(parse_eip1559);
    reveal(eip1559_bytes);
    let p1 = fee_fields_bytes(t.fees());
    let p2 = txkind_bytes(t.to);
    let p3 = payload_bytes(t.value, t.data, t.access_list);
    let p4 = signature_bytes(t.signature_y_parity, t.signature_r, t.signature_s);
    let t3 = p4 + rest;
    let t2 = p3 + t3;
    let t1 = p2 + t2;
    lemma_assoc(p1 + p2 + p3, p4, rest);
    lemma_assoc(p1 + p2, p3, t3);
    lemma_assoc(p1, p2, t2);
    assert(eip1559_bytes(t) + rest == p1 + t1);
    lemma_fee_fields_roundtrip(t.fees(), t1);
    lemma_txkind_roundtrip(t.to, t2);
    lemma_payload_roundtrip(t.value, t.data, t.access_list, t3);
    lemma_signature_roundtrip(t.signature_y_parity, t.signature_r, t.signature_s, rest);
}

fn encode_eip1559(tx: &EIP1559Transaction, buf: &mut Vec<u8>)
    ensures
        final(buf)@ == old(buf)@ + eip1559_bytes(tx@),
{
    reveal(eip1559_bytes);
    encode_fee_fields(
        (tx.chain_id, tx.nonce, tx.max_priority_fee_per_gas, tx.max_fee_per_gas, tx.gas_limit),
        buf,
    );
    encode_txkind(&tx.to, buf);
    encode_payload(&tx.value, &tx.data, &tx.access_list, buf);
    encode_signature(tx.signature_y_parity, &tx.signature_r, &tx.signature_s, buf);
    assert(buf@ =~= old(buf)@ + eip1559_bytes(tx@));
}

fn decode_eip1559(buf: &[u8]) -> (res: Result<(EIP1559Transaction, &[u8]), StoreError>)
    ensures
        res is Ok <==> parse_eip1559(buf@) is Some,
        res matches Ok((t, rest)) ==> parse_eip1559(buf@) == Some((t@, rest@)),
{
    reveal(parse_eip1559);
    let ((chain_id, nonce, max_priority_fee_per_gas, max_fee_per_gas, gas_limit), buf) =
        decode_fee_fields(buf)?;
    let (to, buf) = decode_txkind(buf)?;
    let ((value, data, access_list), buf) = decode_payload(buf)?;
    let ((signature_y_parity, signature_r, signature_s), buf) = decode_signature(buf)?;
    Ok((
        EIP1559Transaction {
            chain_id,
            nonce,
            max_priority_fee_per_gas,
            max_fee_per_gas,
            gas_limit,
            to,
            value,
            data,
            access_list,
            signature_y_parity,
            signature_r,
            signature_s,
        },
        buf,
    ))
}

// ---------------------------------------------------------------------------
// EIP-4844
// ---------------------------------------------------------------------------

#[derive(Debug, PartialEq, Eq)]
pub struct EIP4844Transaction {
    pub chain_id: u64,
    pub nonce: u64,
    pub max_priority_fee_per_gas: u64,
    pub max_fee_per_gas: u64,
    pub gas: u64,
    pub to: Address,
    pub value: U256,
    pub data: bytes::Bytes,
    pub access_list: AccessList,
    pub max_fee_per_blob_gas: U256,
    pub blob_versioned_hashes: Vec<H256>,
    pub signature_y_parity: bool,
    pub signature_r: U256,
    pub signature_s: U256,
}

pub struct EIP4844TransactionView {
    pub chain_id: u64,
    pub nonce: u64,
    pub max_priority_fee_per_gas: u64,
    pub max_fee_per_gas: u64,
    pub gas: u64,
    pub to: Seq<u8>,
    pub value: nat,
    pub data: Seq<u8>,
    pub access_list: AccessListView,
    pub max_fee_per_blob_gas: nat,
    pub blob_versioned_hashes: Seq<Seq<u8>>,
    pub signature_y_parity: bool,
    pub signature_r: nat,
    pub signature_s: nat,
}

impl View for EIP4844Transaction {
    type V = EIP4844TransactionView;

    open spec fn view(&self) -> EIP4844TransactionView {
        EIP4844TransactionView {
            chain_id: self.chain_id,
            nonce: self.nonce,
            max_priority_fee_per_gas: self.max_priority_fee_per_gas,
            max_fee_per_gas: self.max_fee_per_gas,
            gas: self.gas,
            to: self.to@,
            value: self.value@,
            data: bytes_contents(self.data),
            access_list: access_list_view(self.access_list),
            max_fee_per_blob_gas: self.max_fee_per_blob_gas@,
            blob_versioned_hashes: views(self.blob_versioned_hashes@),
            signature_y_parity: self.signature_y_parity,
            signature_r: self.signature_r@,
            signature_s: self.signature_s@,
        }
    }
}

impl EIP4844TransactionView {
    pub open spec fn fees(self) -> (u64, u64, u64, u64, u64) {
        (self.chain_id, self.nonce, self.max_priority_fee_per_gas, self.max_fee_per_gas, self.gas)
    }

    pub open spec fn encodable(self) -> bool {
        &&& self.to.len() == 20
        &&& payload_encodable(self.value, self.data, self.access_list)
        &&& self.max_fee_per_blob_gas < pow256(32)
        &&& all_hashes(self.blob_versioned_hashes)
        &&& self.blob_versioned_hashes.len() <= u32::MAX
        &&& self.signature_r < pow256(32)
        &&& self.signature_s < pow256(32)
    }
}

/// The blob versioned hashes: their count as a compact u32, then each hash raw.
pub open spec fn blob_hashes_bytes(hs: Seq<Seq<u8>>) -> Seq<u8> {
    compact_uint(len_prefix(hs.len())) + seq_bytes(hs, hash_enc())
}

pub open spec fn parse_blob_hashes(s: Seq<u8>) -> Option<(Seq<Seq<u8>>, Seq<u8>)> {
    match parse_u32(s) {
        None => None,
        Some((n, r)) => parse_seq(r, n as nat, hash_parser()),
    }
}

proof fn lemma_blob_hashes_roundtrip(hs: Seq<Seq<u8>>, rest: Seq<u8>)
    requires
        all_hashes(hs),
        hs.len() <= u32::MAX,
    ensures
        parse_blob_hashes(blob_hashes_bytes(hs) + rest) == Some((hs, rest)),
{
    let n = hs.len();
    let t = seq_bytes(hs, hash_enc()) + rest;
    assert(blob_hashes_bytes(hs) + rest =~= compact_uint(len_prefix(n)) + t);
    assert(len_prefix(n) == n as u32 as nat);
    lemma_u32_roundtrip(n as u32, t);
    lemma_hashes_roundtrip(hs, rest);
}

fn encode_blob_hashes(hashes: &Vec<H256>, buf: &mut Vec<u8>)
    ensures
        final(buf)@ == old(buf)@ + blob_hashes_bytes(views(hashes@)),
{
    encode_u32(len_as_u32(hashes.len()), buf);
    let ghost start = buf@;
    let ghost hs = views(hashes@);
    let mut i: usize = 0;
    while i < hashes.len()
        invariant
            i <= hashes.len(),
            hs == views(hashes@),
            buf@ == start + seq_bytes(hs.take(i as int), hash_enc()),
        decreases hashes.len() - i,
    {
        push_slice(hashes[i].as_bytes(), buf);
        proof {
            lemma_take_push(hs, i as int);
            lemma_seq_bytes_push(hs.take(i as int), hs[i as int], hash_enc());
        }
        i = i + 1;
    }
    assert(hs.take(i as int) =~= hs);
    assert(buf@ =~= old(buf)@ + blob_hashes_bytes(views(hashes@)));
}

#[verifier::loop_isolation(false)]
fn decode_blob_hashes(buf: &[u8]) -> (res: Result<(Vec<H256>, &[u8]), StoreError>)
    ensures
        res is Ok <==> parse_blob_hashes(buf@) is Some,
        res matches Ok((hs, rest)) ==> parse_blob_hashes(buf@) == Some((views(hs@), rest@)),
{
    let (hash_count, rest) = decode_u32(buf)?;
    let ghost after_count = rest@;
    let mut rest: &[u8] = rest;
    let mut hashes: Vec<H256> = Vec::new();
    let mut i: u32 = 0;
    while i < hash_count
        invariant
            i <= hash_count,
            parse_seq(after_count, i as nat, hash_parser()) == Some((views(hashes@), rest@)),
        decreases hash_count - i,
    {
        if rest.len() < 32 {
            proof {
                assert((hash_parser())(rest@) is None);
                assert(parse_seq(after_count, (i + 1) as nat, hash_parser()) is None);
                lemma_parse_seq_fails(after_count, (i + 1) as nat, hash_count as nat, hash_parser());
            }
            return Err(StoreError::DecodeError);
        }
        let (h_bytes, r) = rest.split_at(32);
        let ghost before = hashes@;
        hashes.push(H256::from_slice(h_bytes));
        proof {
            lemma_views_push(before, hashes@.last());
            assert(before.push(hashes@.last()) =~= hashes@);
        }
        rest = r;
        i = i + 1;
    }
    Ok((hashes, rest))
}

/// EIP-4844 layout: chain_id, nonce, max_priority_fee_per_gas,
/// max_fee_per_gas, gas, to (20 bytes raw), value, data, access_list,
/// max_fee_per_blob_gas, blob_versioned_hashes, signature.
#[verifier::opaque]
pub open spec fn eip4844_bytes(t: EIP4844TransactionView) -> Seq<u8> {
    fee_fields_bytes(t.fees()) + t.to + payload_bytes(t.value, t.data, t.access_list)
        + compact_uint(t.max_fee_per_blob_gas) + blob_hashes_bytes(t.blob_versioned_hashes)
        + signature_bytes(t.signature_y_parity, t.signature_r, t.signature_s)
}

#[verifier::opaque]
pub open spec fn parse_eip4844(s: Seq<u8>) -> Option<(EIP4844TransactionView, Seq<u8>)> {
    match parse_fee_fields(s) { None => None, Some((f, s)) =>
    match parse_fixed(s, 20) { None => None, Some((to, s)) =>
    match parse_payload(s) { None => None, Some((p, s)) =>
    match parse_u256(s) { None => None, Some((max_fee_per_blob_gas, s)) =>
    match parse_blob_hashes(s) { None => None, Some((blob_versioned_hashes, s)) =>
    match parse_signature(s) { None => None, Some((g, s)) =>
    Some((EIP4844TransactionView {
        chain_id: f.0, nonce: f.1, max_priority_fee_per_gas: f.2, max_fee_per_gas: f.3,
        gas: f.4, to, value: p.0, data: p.1, access_list: p.2, max_fee_per_blob_gas,
        blob_versioned_hashes, signature_y_parity: g.0, signature_r: g.1, signature_s: g.2,
    }, s))
    }}}}}}
}

proof fn lemma_eip4844_roundtrip(t: EIP4844TransactionView, rest: Seq<u8>)
    requires
        t.encodable(),
    ensures
        parse_eip4844(eip4844_bytes(t) + rest) == Some((t, rest)),
{
    reveal(parse_eip4844);
    reveal(eip4844_bytes);
    let p1 = fee_fields_bytes(t.fees());
    let p2 = t.to;
    let p3 = payload_bytes(t.value, t.data, t.access_list);
    let p4 = compact_uint(t.max_fee_per_blob_gas);
    let p5 = blob_hashes_bytes(t.blob_versioned_hashes);
    let p6 = signature_bytes(t.signature_y_parity, t.signature_r, t.signature_s);
    let t5 = p6 + rest;
    let t4 = p5 + t5;
    let t3 = p4 + t4;
    let t2 = p3 + t3;
    let t1 = p2 + t2;
    lemma_assoc(p1 + p2 + p3 + p4 + p5, p6, rest);
    lemma_assoc(p1 + p2 + p3 + p4, p5, t5);
    lemma_assoc(p1 + p2 + p3, p4, t4);
    lemma_assoc(p1 + p2, p3, t3);
    lemma_assoc(p1, p2, t2);
    assert(eip4844_bytes(t) + rest == p1 + t1);
    lemma_fee_fields_roundtrip(t.fees(), t1);
    lemma_fixed_roundtrip(t.to, t2);
    lemma_payload_roundtrip(t.value, t.data, t.access_list, t3);
    lemma_compact_uint_roundtrip(t.max_fee_per_blob_gas, 32, t4);
    lemma_blob_hashes_roundtrip(t.blob_versioned_hashes, t5);
    lemma_signature_roundtrip(t.signature_y_parity, t.signature_r, t.signature_s, rest);
}

fn encode_eip4844(tx: &EIP4844Transaction, buf: &mut Vec<u8>)
    ensures
        final(buf)@ == old(buf)@ + eip4844_bytes(tx@),
{
    reveal(eip4844_bytes);
    encode_fee_fields(
        (tx.chain_id, tx.nonce, tx.max_priority_fee_per_gas, tx.max_fee_per_gas, tx.gas),
        buf,
    );
    push_slice(tx.to.as_bytes(), buf);
    encode_payload(&tx.value, &tx.data, &tx.access_list, buf);
    encode_u256(&tx.max_fee_per_blob_gas, buf);
    encode_blob_hashes(&tx.blob_versioned_hashes, buf);
    encode_signature(tx.signature_y_parity, &tx.signature_r, &tx.signature_s, buf);
    assert(buf@ =~= old(buf)@ + eip4844_bytes(tx@));
}

fn decode_eip4844(buf: &[u8]) -> (res: Result<(EIP4844Transaction, &[u8]), StoreError>)
    ensures
        res is Ok <==> parse_eip4844(buf@) is Some,
        res matches Ok((t, rest)) ==> parse_eip4844(buf@) == Some((t@, rest@)),
{
    reveal(parse_eip4844);
    let ((chain_id, nonce, max_priority_fee_per_gas, max_fee_per_gas, gas), buf) =
        decode_fee_fields(buf)?;
    if buf.len() < 20 {
        return Err(StoreError::DecodeError);
    }
    let (addr_bytes, buf) = buf.split_at(20);
    let to = Address::from_slice(addr_bytes);
    let ((value, data, access_list), buf) = decode_payload(buf)?;
    let (max_fee_per_blob_gas, buf) = decode_u256(buf)?;
    let (blob_versioned_hashes, buf) = decode_blob_hashes(buf)?;
    let ((signature_y_parity, signature_r, signature_s), buf) = decode_signature(buf)?;
    Ok((
        EIP4844Transaction {
            chain_id,
            nonce,
            max_priority_fee_per_gas,
            max_fee_per_gas,
            gas,
            to,
            value,
            data,
            access_list,
            max_fee_per_blob_gas,
            blob_versioned_hashes,
            signature_y_parity,
            signature_r,
            signature_s,
        },
        buf,
    ))
}

// ---------------------------------------------------------------------------
// EIP-7702
// ---------------------------------------------------------------------------

#[derive(Debug, PartialEq, Eq)]
pub struct EIP7702Transaction {
    pub chain_id: u64,
    pub nonce: u64,
    pub max_priority_fee_per_gas: u64,
    pub max_fee_per_gas: u64,
    pub gas_limit: u64,
    pub to: Address,
    pub value: U256,
    pub data: bytes::Bytes,
    pub access_list: AccessList,
    pub authorization_list: AuthorizationList,
    pub signature_y_parity: bool,
    pub signature_r: U256,
    pub signature_s: U256,
}

pub struct EIP7702TransactionView {
    pub chain_id: u64,
    pub nonce: u64,
    pub max_priority_fee_per_gas: u64,
    pub max_fee_per_gas: u64,
    pub gas_limit: u64,
    pub to: Seq<u8>,
    pub value: nat,
    pub data: Seq<u8>,
    pub access_list: AccessListView,
    pub authorization_list: Seq<AuthorizationTupleView>,
    pub signature_y_parity: bool,
    pub signature_r: nat,
    pub signature_s: nat,
}

impl View for EIP7702Transaction {
    type V = EIP7702TransactionView;

    open spec fn view(&self) -> EIP7702TransactionView {
        EIP7702TransactionView {
            chain_id: self.chain_id,
            nonce: self.nonce,
            max_priority_fee_per_gas: self.max_priority_fee_per_gas,
            max_fee_per_gas: self.max_fee_per_gas,
            gas_limit: self.gas_limit,
            to: self.to@,
            value: self.value@,
            data: bytes_contents(self.data),
            access_list: access_list_view(self.access_list),
            authorization_list: views(self.authorization_list@),
            signature_y_parity: self.signature_y_parity,
            signature_r: self.signature_r@,
            signature_s: self.signature_s@,
        }
    }
}

impl EIP7702TransactionView {
    pub open spec fn fees(self) -> (u64, u64, u64, u64, u64) {
        (self.chain_id, self.nonce, self.max_priority_fee_per_gas, self.max_fee_per_gas, self.gas_limit)
    }

    pub open spec fn encodable(self) -> bool {
        &&& self.to.len() == 20
        &&& payload_encodable(self.value, self.data, self.access_list)
        &&& auth_list_encodable(self.authorization_list)
        &&& self.signature_r < pow256(32)
        &&& self.signature_s < pow256(32)
    }
}

/// EIP-7702 layout: chain_id, nonce, max_priority_fee_per_gas,
/// max_fee_per_gas, gas_limit, to (20 bytes raw), value, data, access_list,
/// authorization_list, signature.
#[verifier::opaque]
pub open spec fn eip7702_bytes(t: EIP7702TransactionView) -> Seq<u8> {
    fee_fields_bytes(t.fees()) + t.to + payload_bytes(t.value, t.data, t.access_list)
        + auth_list_bytes(t.authorization_list) + signature_bytes(
        t.signature_y_parity,
        t.signature_r,
        t.signature_s,
    )
}

#[verifier::opaque]
pub open spec fn parse_eip7702(s: Seq<u8>) -> Option<(EIP7702TransactionView, Seq<u8>)> {
    match parse_fee_fields(s) { None => None, Some((f, s)) =>
    match parse_fixed(s, 20) { None => None, Some((to, s)) =>
    match parse_payload(s) { None => None, Some((p, s)) =>
    match parse_auth_list(s) { None => None, Some((authorization_list, s)) =>
    match parse_signature(s) { None => None, Some((g, s)) =>
    Some((EIP7702TransactionView {
        chain_id: f.0, nonce: f.1, max_priority_fee_per_gas: f.2, max_fee_per_gas: f.3,
        gas_limit: f.4, to, value: p.0, data: p.1, access_list: p.2, authorization_list,
        signature_y_parity: g.0, signature_r: g.1, signature_s: g.2,
    }, s))
    }}}}}
}

proof fn lemma_eip7702_roundtrip(t: EIP7702TransactionView, rest: Seq<u8>)
    requires
        t.encodable(),
    ensures
        parse_eip7702(eip7702_bytes(t) + rest) == Some((t, rest)),
{
    reveal(parse_eip7702);
    reveal(eip7702_bytes);
    let p1 = fee_fields_bytes(t.fees());
    let p2 = t.to;
    let p3 = payload_bytes(t.value, t.data, t.access_list);
    let p4 = auth_list_bytes(t.authorization_list);
    let p5 = signature_bytes(t.signature_y_parity, t.signature_r, t.signature_s);
    let t4 = p5 + rest;
    let t3 = p4 + t4;
    let t2 = p3 + t3;
    let t1 = p2 + t2;
    lemma_assoc(p1 + p2 + p3 + p4, p5, rest);
    lemma_assoc(p1 + p2 + p3, p4, t4);
    lemma_assoc(p1 + p2, p3, t3);
    lemma_assoc(p1, p2, t2);
    assert(eip7702_bytes(t) + rest == p1 + t1);
    lemma_fee_fields_roundtrip(t.fees(), t1);
    lemma_fixed_roundtrip(t.to, t2);
    lemma_payload_roundtrip(t.value, t.data, t.access_list, t3);
    lemma_auth_list_roundtrip(t.authorization_list, t4);
    lemma_signature_roundtrip(t.signature_y_parity, t.signature_r, t.signature_s, rest);
}

fn encode_eip7702(tx: &EIP7702Transaction, buf: &mut Vec<u8>)
    ensures
        final(buf)@ == old(buf)@ + eip7702_bytes(tx@),
{
    reveal(eip7702_bytes);
    encode_fee_fields(
        (tx.chain_id, tx.nonce, tx.max_priority_fee_per_gas, tx.max_fee_per_gas, tx.gas_limit),
        buf,
    );
    push_slice(tx.to.as_bytes(), buf);
    encode_payload(&tx.value, &tx.data, &tx.access_list, buf);
    encode_authorization_list(&tx.authorization_list, buf);
    encode_signature(tx.signature_y_parity, &tx.signature_r, &tx.signature_s, buf);
    assert(buf@ =~= old(buf)@ + eip7702_bytes(tx@));
}

fn decode_eip7702(buf: &[u8]) -> (res: Result<(EIP7702Transaction, &[u8]), StoreError>)
    ensures
        res is Ok <==> parse_eip7702(buf@) is Some,
        res matches Ok((t, rest)) ==> parse_eip7702(buf@) == Some((t@, rest@)),
{
    reveal(parse_eip7702);
    let ((chain_id, nonce, max_priority_fee_per_gas, max_fee_per_gas, gas_limit), buf) =
        decode_fee_fields(buf)?;
    if buf.len() < 20 {
        return Err(StoreError::DecodeError);
    }
    let (addr_bytes, buf) = buf.split_at(20);
    let to = Address::from_slice(addr_bytes);
    let ((value, data, access_list), buf) = decode_payload(buf)?;
    let (authorization_list, buf) = decode_authorization_list(buf)?;
    let ((signature_y_parity, signature_r, signature_s), buf) = decode_signature(buf)?;
    Ok((
        EIP7702Transaction {
            chain_id,
            nonce,
            max_priority_fee_per_gas,
            max_fee_per_gas,
            gas_limit,
            to,
            value,
            data,
            access_list,
            authorization_list,
            signature_y_parity,
            signature_r,
            signature_s,
        },
        buf,
    ))
}

// ---------------------------------------------------------------------------
// Privileged L2
// ---------------------------------------------------------------------------

#[derive(Debug, PartialEq, Eq)]
pub struct PrivilegedL2Transaction {
    pub chain_id: u64,
    pub nonce: u64,
    pub max_priority_fee_per_gas: u64,
    pub max_fee_per_gas: u64,
    pub gas_limit: u64,
    pub to: TxKind,
    pub value: U256,
    pub data: bytes::Bytes,
    pub access_list: AccessList,
    pub from: Address,
}

pub struct PrivilegedL2TransactionView {
    pub chain_id: u64,
    pub nonce: u64,
    pub max_priority_fee_per_gas: u64,
    pub max_fee_per_gas: u64,
    pub gas_limit: u64,
    pub to: TxKindView,
    pub value: nat,
    pub data: Seq<u8>,
    pub access_list: AccessListView,
    pub from: Seq<u8>,
}

impl View for PrivilegedL2Transaction {
    type V = PrivilegedL2TransactionView;

    open spec fn view(&self) -> PrivilegedL2TransactionView {
        PrivilegedL2TransactionView {
            chain_id: self.chain_id,
            nonce: self.nonce,
            max_priority_fee_per_gas: self.max_priority_fee_per_gas,
            max_fee_per_gas: self.max_fee_per_gas,
            gas_limit: self.gas_limit,
            to: self.to@,
            value: self.value@,
            data: bytes_contents(self.data),
            access_list: access_list_view(self.access_list),
            from: self.from@,
        }
    }
}

impl PrivilegedL2TransactionView {
    pub open spec fn fees(self) -> (u64, u64, u64, u64, u64) {
        (self.chain_id, self.nonce, self.max_priority_fee_per_gas, self.max_fee_per_gas, self.gas_limit)
    }

    pub open spec fn encodable(self) -> bool {
        &&& self.to.wf()
        &&& payload_encodable(self.value, self.data, self.access_list)
        &&& self.from.len() == 20
    }
}

/// Privileged layout: chain_id, nonce, max_priority_fee_per_gas,
/// max_fee_per_gas, gas_limit, to, value, data, access_list, from (20 bytes
/// raw). It carries no signature.
#[verifier::opaque]
pub open spec fn privileged_bytes(t: PrivilegedL2TransactionView) -> Seq<u8> {
    fee_fields_bytes(t.fees()) + txkind_bytes(t.to) + payload_bytes(t.value, t.data, t.access_list)
        + t.from
}

#[verifier::opaque]
pub open spec fn parse_privileged(s: Seq<u8>) -> Option<(PrivilegedL2TransactionView, Seq<u8>)> {
    match parse_fee_fields(s) { None => None, Some((f, s)) =>
    match parse_txkind(s) { None => None, Some((to, s)) =>
    match parse_payload(s) { None => None, Some((p, s)) =>
    match parse_fixed(s, 20) { None => None, Some((from, s)) =>
    Some((PrivilegedL2TransactionView {
        chain_id: f.0, nonce: f.1, max_priority_fee_per_gas: f.2, max_fee_per_gas: f.3,
        gas_limit: f.4, to, value: p.0, data: p.1, access_list: p.2, from,
    }, s))
    }}}}
}

proof fn lemma_privileged_roundtrip(t: PrivilegedL2TransactionView, rest: Seq<u8>)
    requires
        t.encodable(),
    ensures
        parse_privileged(privileged_bytes(t) + rest) == Some((t, rest)),
{
    reveal(parse_privileged);
    reveal(privileged_bytes);
    let p1 = fee_fields_bytes(t.fees());
    let p2 = txkind_bytes(t.to);
    let p3 = payload_bytes(t.value, t.data, t.access_list);
    let p4 = t.from;
    let t3 = p4 + rest;
    let t2 = p3 + t3;
    let t1 = p2 + t2;
    lemma_assoc(p1 + p2 + p3, p4, rest);
    lemma_assoc(p1 + p2, p3, t3);
    lemma_assoc(p1, p2, t2);
    assert(privileged_bytes(t) + rest == p1 + t1);
    lemma_fee_fields_roundtrip(t.fees(), t1);
    lemma_txkind_roundtrip(t.to, t2);
    lemma_payload_roundtrip(t.value, t.data, t.access_list, t3);
    lemma_fixed_roundtrip(t.from, rest);
}

fn encode_privileged(tx: &PrivilegedL2Transaction, buf: &mut Vec<u8>)
    ensures
        final(buf)@ == old(buf)@ + privileged_bytes(tx@),
{
    reveal(privileged_bytes);
    encode_fee_fields(
        (tx.chain_id, tx.nonce, tx.max_priority_fee_per_gas, tx.max_fee_per_gas, tx.gas_limit),
        buf,
    );
    encode_txkind(&tx.to, buf);
    encode_payload(&tx.value, &tx.data, &tx.access_list, buf);
    push_slice(tx.from.as_bytes(), buf);
    assert(buf@ =~= old(buf)@ + privileged_bytes(tx@));
}

fn decode_privileged(buf: &[u8]) -> (res: Result<(PrivilegedL2Transaction, &[u8]), StoreError>)
    ensures
        res is Ok <==> parse_privileged(buf@) is Some,
        res matches Ok((t, rest)) ==> parse_privileged(buf@) == Some((t@, rest@)),
{
    reveal(parse_privileged);
    let ((chain_id, nonce, max_priority_fee_per_gas, max_fee_per_gas, gas_limit), buf) =
        decode_fee_fields(buf)?;
    let (to, buf) = decode_txkind(buf)?;
    let ((value, data, access_list), buf) = decode_payload(buf)?;
    if buf.len() < 20 {
        return Err(StoreError::DecodeError);
    }
    let (from_bytes, buf) = buf.split_at(20);
    let from = Address::from_slice(from_bytes);
    Ok((
        PrivilegedL2Transaction {
            chain_id,
            nonce,
            max_priority_fee_per_gas,
            max_fee_per_gas,
            gas_limit,
            to,
            value,
            data,
            access_list,
            from,
        },
        buf,
    ))
}

// ---------------------------------------------------------------------------
// Fee token
// ---------------------------------------------------------------------------

#[derive(Debug, PartialEq, Eq)]
pub struct FeeTokenTransaction {
    pub chain_id: u64,
    pub nonce: u64,
    pub max_priority_fee_per_gas: u64,
    pub max_fee_per_gas: u64,
    pub gas_limit: u64,
    pub to: TxKind,
    pub value: U256,
    pub data: bytes::Bytes,
    pub access_list: AccessList,
    pub fee_token: Address,
    pub signature_y_parity: bool,
    pub signature_r: U256,
    pub signature_s: U256,
}

pub struct FeeTokenTransactionView {
    pub chain_id: u64,
    pub nonce: u64,
    pub max_priority_fee_per_gas: u64,
    pub max_fee_per_gas: u64,
    pub gas_limit: u64,
    pub to: TxKindView,
    pub value: nat,
    pub data: Seq<u8>,
    pub access_list: AccessListView,
    pub fee_token: Seq<u8>,
    pub signature_y_parity: bool,
    pub signature_r: nat,
    pub signature_s: nat,
}

impl View for FeeTokenTransaction {
    type V = FeeTokenTransactionView;

    open spec fn view(&self) -> FeeTokenTransactionView {
        FeeTokenTransactionView {
            chain_id: self.chain_id,
            nonce: self.nonce,
            max_priority_fee_per_gas: self.max_priority_fee_per_gas,
            max_fee_per_gas: self.max_fee_per_gas,
            gas_limit: self.gas_limit,
            to: self.to@,
            value: self.value@,
            data: bytes_contents(self.data),
            access_list: access_list_view(self.access_list),
            fee_token: self.fee_token@,
            signature_y_parity: self.signature_y_parity,
            signature_r: self.signature_r@,
            signature_s: self.signature_s@,
        }
    }
}

impl FeeTokenTransactionView {
    pub open spec fn fees(self) -> (u64, u64, u64, u64, u64) {
        (self.chain_id, self.nonce, self.max_priority_fee_per_gas, self.max_fee_per_gas, self.gas_limit)
    }

    pub open spec fn encodable(self) -> bool {
        &&& self.to.wf()
        &&& payload_encodable(self.value, self.data, self.access_list)
        &&& self.fee_token.len() == 20
        &&& self.signature_r < pow256(32)
        &&& self.signature_s < pow256(32)
    }
}

/// Fee token layout: chain_id, nonce, max_priority_fee_per_gas,
/// max_fee_per_gas, gas_limit, to, value, data, access_list, fee_token (20
/// bytes raw), signature.
#[verifier::opaque]
pub open spec fn fee_token_bytes(t: FeeTokenTransactionView) -> Seq<u8> {
    fee_fields_bytes(t.fees()) + txkind_bytes(t.to) + payload_bytes(t.value, t.data, t.access_list)
        + t.fee_token + signature_bytes(t.signature_y_parity, t.signature_r, t.signature_s)
}

#[verifier::opaque]
pub open spec fn parse_fee_token(s: Seq<u8>) -> Option<(FeeTokenTransactionView, Seq<u8>)> {
    match parse_fee_fields(s) { None => None, Some((f, s)) =>
    match parse_txkind(s) { None => None, Some((to, s)) =>
    match parse_payload(s) { None => None, Some((p, s)) =>
    match parse_fixed(s, 20) { None => None, Some((fee_token, s)) =>
    match parse_signature(s) { None => None, Some((g, s)) =>
    Some((FeeTokenTransactionView {
        chain_id: f.0, nonce: f.1, max_priority_fee_per_gas: f.2, max_fee_per_gas: f.3,
        gas_limit: f.4, to, value: p.0, data: p.1, access_list: p.2, fee_token,
        signature_y_parity: g.0, signature_r: g.1, signature_s: g.2,
    }, s))
    }}}}}
}

proof fn lemma_fee_token_roundtrip(t: FeeTokenTransactionView, rest: Seq<u8>)
    requires
        t.encodable(),
    ensures
        parse_fee_token(fee_token_bytes(t) + rest) == Some((t, rest)),
{
    reveal(parse_fee_token);
    reveal(fee_token_bytes);
    let p1 = fee_fields_bytes(t.fees());
    let p2 = txkind_bytes(t.to);
    let p3 = payload_bytes(t.value, t.data, t.access_list);
    let p4 = t.fee_token;
    let p5 = signature_bytes(t.signature_y_parity, t.signature_r, t.signature_s);
    let t4 = p5 + rest;
    let t3 = p4 + t4;
    let t2 = p3 + t3;
    let t1 = p2 + t2;
    lemma_assoc(p1 + p2 + p3 + p4, p5, rest);
    lemma_assoc(p1 + p2 + p3, p4, t4);
    lemma_assoc(p1 + p2, p3, t3);
    lemma_assoc(p1, p2, t2);
    assert(fee_token_bytes(t) + rest == p1 + t1);
    lemma_fee_fields_roundtrip(t.fees(), t1);
    lemma_txkind_roundtrip(t.to, t2);
    lemma_payload_roundtrip(t.value, t.data, t.access_list, t3);
    lemma_fixed_roundtrip(t.fee_token, t4);
    lemma_signature_roundtrip(t.signature_y_parity, t.signature_r, t.signature_s, rest);
}

fn encode_fee_token(tx: &FeeTokenTransaction, buf: &mut Vec<u8>)
    ensures
        final(buf)@ == old(buf)@ + fee_token_bytes(tx@),
{
    reveal(fee_token_bytes);
    encode_fee_fields(
        (tx.chain_id, tx.nonce, tx.max_priority_fee_per_gas, tx.max_fee_per_gas, tx.gas_limit),
        buf,
    );
    encode_txkind(&tx.to, buf);
    encode_payload(&tx.value, &tx.data, &tx.access_list, buf);
    push_slice(tx.fee_token.as_bytes(), buf);
    encode_signature(tx.signature_y_parity, &tx.signature_r, &tx.signature_s, buf);
    assert(buf@ =~= old(buf)@ + fee_token_bytes(tx@));
}

fn decode_fee_token(buf: &[u8]) -> (res: Result<(FeeTokenTransaction, &[u8]), StoreError>)
    ensures
        res is Ok <==> parse_fee_token(buf@) is Some,
        res matches Ok((t, rest)) ==> parse_fee_token(buf@) == Some((t@, rest@)),
{
    reveal(parse_fee_token);
    let ((chain_id, nonce, max_priority_fee_per_gas, max_fee_per_gas, gas_limit), buf) =
        decode_fee_fields(buf)?;
    let (to, buf) = decode_txkind(buf)?;
    let ((value, data, access_list), buf) = decode_payload(buf)?;
    if buf.len() < 20 {
        return Err(StoreError::DecodeError);
    }
    let (fee_token_bytes, buf) = buf.split_at(20);
    let fee_token = Address::from_slice(fee_token_bytes);
    let ((signature_y_parity, signature_r, signature_s), buf) = decode_signature(buf)?;
    Ok((
        FeeTokenTransaction {
            chain_id,
            nonce,
            max_priority_fee_per_gas,
            max_fee_per_gas,
            gas_limit,
            to,
            value,
            data,
            access_list,
            fee_token,
            signature_y_parity,
            signature_r,
            signature_s,
        },
        buf,
    ))
}

// ---------------------------------------------------------------------------
// Transaction
// ---------------------------------------------------------------------------

/// A transaction of any kind.
#[derive(Debug, PartialEq, Eq)]
pub enum Transaction {
    LegacyTransaction(LegacyTransaction),
    EIP2930Transaction(EIP2930Transaction),
    EIP1559Transaction(EIP1559Transaction),
    EIP4844Transaction(EIP4844Transaction),
    EIP7702Transaction(EIP7702Transaction),
    PrivilegedL2Transaction(PrivilegedL2Transaction),
    FeeTokenTransaction(FeeTokenTransaction),
}

pub enum TransactionView {
    LegacyTransaction(LegacyTransactionView),
    EIP2930Transaction(EIP2930TransactionView),
    EIP1559Transaction(EIP1559TransactionView),
    EIP4844Transaction(EIP4844TransactionView),
    EIP7702Transaction(EIP7702TransactionView),
    PrivilegedL2Transaction(PrivilegedL2TransactionView),
    FeeTokenTransaction(FeeTokenTransactionView),
}

impl View for Transaction {
    type V = TransactionView;

    open spec fn view(&self) -> TransactionView {
        match self {
            Transaction::LegacyTransaction(tx) => TransactionView::LegacyTransaction(tx@),
            Transaction::EIP2930Transaction(tx) => TransactionView::EIP2930Transaction(tx@),
            Transaction::EIP1559Transaction(tx) => TransactionView::EIP1559Transaction(tx@),
            Transaction::EIP4844Transaction(tx) => TransactionView::EIP4844Transaction(tx@),
            Transaction::EIP7702Transaction(tx) => TransactionView::EIP7702Transaction(tx@),
            Transaction::PrivilegedL2Transaction(tx) => TransactionView::PrivilegedL2Transaction(tx@),
            Transaction::FeeTokenTransaction(tx) => TransactionView::FeeTokenTransaction(tx@),
        }
    }
}

impl TransactionView {
    /// The kind of the transaction.
    pub open spec fn tx_type(self) -> TxType {
        match self {
            TransactionView::LegacyTransaction(_) => TxType::Legacy,
            TransactionView::EIP2930Transaction(_) => TxType::EIP2930,
            TransactionView::EIP1559Transaction(_) => TxType::EIP1559,
            TransactionView::EIP4844Transaction(_) => TxType::EIP4844,
            TransactionView::EIP7702Transaction(_) => TxType::EIP7702,
            TransactionView::PrivilegedL2Transaction(_) => TxType::Privileged,
            TransactionView::FeeTokenTransaction(_) => TxType::FeeToken,
        }
    }

    /// A transaction whose integers fit 256 bits, whose addresses and hashes
    /// have their fixed lengths, and whose counts and lengths fit their `u32`
    /// prefixes.
    pub open spec fn encodable(self) -> bool {
        match self {
            TransactionView::LegacyTransaction(tx) => tx.encodable(),
            TransactionView::EIP2930Transaction(tx) => tx.encodable(),
            TransactionView::EIP1559Transaction(tx) => tx.encodable(),
            TransactionView::EIP4844Transaction(tx) => tx.encodable(),
            TransactionView::EIP7702Transaction(tx) => tx.encodable(),
            TransactionView::PrivilegedL2Transaction(tx) => tx.encodable(),
            TransactionView::FeeTokenTransaction(tx) => tx.encodable(),
        }
    }
}

/// The fields of a transaction after its type byte.
pub open spec fn transaction_fields_bytes(t: TransactionView) -> Seq<u8> {
    match t {
        TransactionView::LegacyTransaction(tx) => legacy_bytes(tx),
        TransactionView::EIP2930Transaction(tx) => eip2930_bytes(tx),
        TransactionView::EIP1559Transaction(tx) => eip1559_bytes(tx),
        TransactionView::EIP4844Transaction(tx) => eip4844_bytes(tx),
        TransactionView::EIP7702Transaction(tx) => eip7702_bytes(tx),
        TransactionView::PrivilegedL2Transaction(tx) => privileged_bytes(tx),
        TransactionView::FeeTokenTransaction(tx) => fee_token_bytes(tx),
    }
}

/// Transaction compact encoding layout:
///   [variant_byte: 1 byte]  (the type byte of the transaction's kind)
///   [variant fields...]
pub open spec fn transaction_bytes(t: TransactionView) -> Seq<u8> {
    seq![t.tx_type().byte()] + transaction_fields_bytes(t)
}

/// Reads a transaction: the type byte selects the layout of the fields.
pub open spec fn parse_transaction(s: Seq<u8>) -> Option<(TransactionView, Seq<u8>)> {
    if s.len() == 0 {
        None
    } else {
        let r = s.subrange(1, s.len() as int);
        match TxType::from_byte(s[0]) {
            None => None,
            Some(TxType::Legacy) => match parse_legacy(r) {
                Some((tx, r2)) => Some((TransactionView::LegacyTransaction(tx), r2)),
                None => None,
            },
            Some(TxType::EIP2930) => match parse_eip2930(r) {
                Some((tx, r2)) => Some((TransactionView::EIP2930Transaction(tx), r2)),
                None => None,
            },
            Some(TxType::EIP1559) => match parse_eip1559(r) {
                Some((tx, r2)) => Some((TransactionView::EIP1559Transaction(tx), r2)),
                None => None,
            },
            Some(TxType::EIP4844) => match parse_eip4844(r) {
                Some((tx, r2)) => Some((TransactionView::EIP4844Transaction(tx), r2)),
                None => None,
            },
            Some(TxType::EIP7702) => match parse_eip7702(r) {
                Some((tx, r2)) => Some((TransactionView::EIP7702Transaction(tx), r2)),
                None => None,
            },
            Some(TxType::Privileged) => match parse_privileged(r) {
                Some((tx, r2)) => Some((TransactionView::PrivilegedL2Transaction(tx), r2)),
                None => None,
            },
            Some(TxType::FeeToken) => match parse_fee_token(r) {
                Some((tx, r2)) => Some((TransactionView::FeeTokenTransaction(tx), r2)),
                None => None,
            },
        }
    }
}

/// A transaction reads back from its encoding, leaving the bytes after it.
pub proof fn lemma_transaction_view_roundtrip(t: TransactionView, rest: Seq<u8>)
    requires
        t.encodable(),
    ensures
        parse_transaction(transaction_bytes(t) + rest) == Some((t, rest)),
{
    let s = transaction_bytes(t) + rest;
    let r = transaction_fields_bytes(t) + rest;
    assert(s.subrange(1, s.len() as int) =~= r);
    lemma_tx_type_roundtrip(t.tx_type());
    match t {
        TransactionView::LegacyTransaction(tx) => lemma_legacy_roundtrip(tx, rest),
        TransactionView::EIP2930Transaction(tx) => lemma_eip2930_roundtrip(tx, rest),
        TransactionView::EIP1559Transaction(tx) => lemma_eip1559_roundtrip(tx, rest),
        TransactionView::EIP4844Transaction(tx) => lemma_eip4844_roundtrip(tx, rest),
        TransactionView::EIP7702Transaction(tx) => lemma_eip7702_roundtrip(tx, rest),
        TransactionView::PrivilegedL2Transaction(tx) => lemma_privileged_roundtrip(tx, rest),
        TransactionView::FeeTokenTransaction(tx) => lemma_fee_token_roundtrip(tx, rest),
    }
}

/// Decoding the encoding of a transaction gives the same transaction, and
/// the bytes after it are left as they were, whenever its counts and lengths
/// fit their `u32` prefixes.
pub proof fn lemma_transaction_roundtrip(t: Transaction, rest: Seq<u8>)
    requires
        t@.encodable(),
    ensures
        Transaction::compact_parse(t.compact_form() + rest) == Some((t@, rest)),
{
    lemma_transaction_view_roundtrip(t@, rest);
}

impl CompactEncode for Transaction {
    open spec fn compact_form(&self) -> Seq<u8> {
        transaction_bytes(self@)
    }

    fn compact_encode(&self, buf: &mut Vec<u8>) {
        match self {
            Transaction::LegacyTransaction(tx) => {
                buf.push(TxType::Legacy.to_u8());
                encode_legacy(tx, buf);
            },
            Transaction::EIP2930Transaction(tx) => {
                buf.push(TxType::EIP2930.to_u8());
                encode_eip2930(tx, buf);
            },
            Transaction::EIP1559Transaction(tx) => {
                buf.push(TxType::EIP1559.to_u8());
                encode_eip1559(tx, buf);
            },
            Transaction::EIP4844Transaction(tx) => {
                buf.push(TxType::EIP4844.to_u8());
                encode_eip4844(tx, buf);
            },
            Transaction::EIP7702Transaction(tx) => {
                buf.push(TxType::EIP7702.to_u8());
                encode_eip7702(tx, buf);
            },
            Transaction::PrivilegedL2Transaction(tx) => {
                buf.push(TxType::Privileged.to_u8());
                encode_privileged(tx, buf);
            },
            Transaction::FeeTokenTransaction(tx) => {
                buf.push(TxType::FeeToken.to_u8());
                encode_fee_token(tx, buf);
            },
        }
        assert(buf@ =~= old(buf)@ + transaction_bytes(self@));
    }
}

impl CompactDecode for Transaction {
    open spec fn compact_parse(buf: Seq<u8>) -> Option<(TransactionView, Seq<u8>)> {
        parse_transaction(buf)
    }

    fn compact_decode(buf: &[u8]) -> (res: Result<(Self, &[u8]), StoreError>) {
        if buf.len() == 0 {
            return Err(StoreError::DecodeError);
        }
        let variant = buf[0];
        let (_, buf) = buf.split_at(1);
        let tx_type = match TxType::from_u8(variant) {
            Some(t) => t,
            None => return Err(StoreError::DecodeError),
        };
        match tx_type {
            TxType::Legacy => {
                let (tx, buf) = decode_legacy(buf)?;
                Ok((Transaction::LegacyTransaction(tx), buf))
            },
            TxType::EIP2930 => {
                let (tx, buf) = decode_eip2930(buf)?;
                Ok((Transaction::EIP2930Transaction(tx), buf))
            },
            TxType::EIP1559 => {
                let (tx, buf) = decode_eip1559(buf)?;
                Ok((Transaction::EIP1559Transaction(tx), buf))
            },
            TxType::EIP4844 => {
                let (tx, buf) = decode_eip4844(buf)?;
                Ok((Transaction::EIP4844Transaction(tx), buf))
            },
            TxType::EIP7702 => {
                let (tx, buf) = decode_eip7702(buf)?;
                Ok((Transaction::EIP7702Transaction(tx), buf))
            },
            TxType::Privileged => {
                let (tx, buf) = decode_privileged(buf)?;
                Ok((Transaction::PrivilegedL2Transaction(tx), buf))
            },
            TxType::FeeToken => {
                let (tx, buf) = decode_fee_token(buf)?;
                Ok((Transaction::FeeTokenTransaction(tx), buf))
            },
        }
    }
}

// ---------------------------------------------------------------------------
// Field order of each kind
// ---------------------------------------------------------------------------

/// A legacy transaction is written as the type byte 0, then nonce,
/// gas_price, gas, the recipient, value, data, v, r and s, each integer in
/// its minimal compact form.
pub proof fn lemma_legacy_layout(t: LegacyTransactionView)
    ensures
        transaction_bytes(TransactionView::LegacyTransaction(t)) == seq![0u8] + compact_uint(
            t.nonce as nat,
        ) + compact_uint(t.gas_price) + compact_uint(t.gas as nat) + txkind_bytes(t.to)
            + compact_uint(t.value) + compact_bytes(t.data) + compact_uint(t.v) + compact_uint(t.r)
            + compact_uint(t.s),
{
    reveal(legacy_bytes);
    assert(transaction_bytes(TransactionView::LegacyTransaction(t)) =~= seq![0u8] + compact_uint(
        t.nonce as nat,
    ) + compact_uint(t.gas_price) + compact_uint(t.gas as nat) + txkind_bytes(t.to)
        + compact_uint(t.value) + compact_bytes(t.data) + compact_uint(t.v) + compact_uint(t.r)
        + compact_uint(t.s));
}

/// An EIP-2930 transaction is written as the type byte 1, then chain_id,
/// nonce, gas_price, gas_limit, the recipient, value, data, the access list,
/// the parity byte, r and s.
pub proof fn lemma_eip2930_layout(t: EIP2930TransactionView)
    ensures
        transaction_bytes(TransactionView::EIP2930Transaction(t)) == seq![1u8] + compact_uint(
            t.chain_id as nat,
        ) + compact_uint(t.nonce as nat) + compact_uint(t.gas_price) + compact_uint(
            t.gas_limit as nat,
        ) + txkind_bytes(t.to) + compact_uint(t.value) + compact_bytes(t.data) + access_list_bytes(
            t.access_list,
        ) + seq![if t.signature_y_parity { 1u8 } else { 0u8 }] + compact_uint(t.signature_r)
            + compact_uint(t.signature_s),
{
    reveal(eip2930_bytes);
    assert(transaction_bytes(TransactionView::EIP2930Transaction(t)) =~= seq![1u8] + compact_uint(
        t.chain_id as nat,
    ) + compact_uint(t.nonce as nat) + compact_uint(t.gas_price) + compact_uint(
        t.gas_limit as nat,
    ) + txkind_bytes(t.to) + compact_uint(t.value) + compact_bytes(t.data) + access_list_bytes(
        t.access_list,
    ) + seq![if t.signature_y_parity { 1u8 } else { 0u8 }] + compact_uint(t.signature_r)
        + compact_uint(t.signature_s));
}

/// An EIP-1559 transaction is written as the type byte 2, then chain_id,
/// nonce, max_priority_fee_per_gas, max_fee_per_gas, gas_limit, the
/// recipient, value, data, the access list, the parity byte, r and s.
pub proof fn lemma_eip1559_layout(t: EIP1559TransactionView)
    ensures
        transaction_bytes(TransactionView::EIP1559Transaction(t)) == seq![2u8] + compact_uint(
            t.chain_id as nat,
        ) + compact_uint(t.nonce as nat) + compact_uint(t.max_priority_fee_per_gas as nat)
            + compact_uint(t.max_fee_per_gas as nat) + compact_uint(t.gas_limit as nat)
            + txkind_bytes(t.to) + compact_uint(t.value) + compact_bytes(t.data) + access_list_bytes(
            t.access_list,
        ) + seq![if t.signature_y_parity { 1u8 } else { 0u8 }] + compact_uint(t.signature_r)
            + compact_uint(t.signature_s),
{
    reveal(eip1559_bytes);
    assert(transaction_bytes(TransactionView::EIP1559Transaction(t)) =~= seq![2u8] + compact_uint(
        t.chain_id as nat,
    ) + compact_uint(t.nonce as nat) + compact_uint(t.max_priority_fee_per_gas as nat)
        + compact_uint(t.max_fee_per_gas as nat) + compact_uint(t.gas_limit as nat) + txkind_bytes(
        t.to,
    ) + compact_uint(t.value) + compact_bytes(t.data) + access_list_bytes(t.access_list)
        + seq![if t.signature_y_parity { 1u8 } else { 0u8 }] + compact_uint(t.signature_r)
        + compact_uint(t.signature_s));
}

/// An EIP-4844 transaction is written as the type byte 3, then chain_id,
/// nonce, max_priority_fee_per_gas, max_fee_per_gas, gas, the 20 recipient
/// bytes, value, data, the access list, max_fee_per_blob_gas, the count of
/// blob hashes and each hash, the parity byte, r and s.
pub proof fn lemma_eip4844_layout(t: EIP4844TransactionView)
    ensures
        transaction_bytes(TransactionView::EIP4844Transaction(t)) == seq![3u8] + compact_uint(
            t.chain_id as nat,
        ) + compact_uint(t.nonce as nat) + compact_uint(t.max_priority_fee_per_gas as nat)
            + compact_uint(t.max_fee_per_gas as nat) + compact_uint(t.gas as nat) + t.to
            + compact_uint(t.value) + compact_bytes(t.data) + access_list_bytes(t.access_list)
            + compact_uint(t.max_fee_per_blob_gas) + compact_uint(
            len_prefix(t.blob_versioned_hashes.len()),
        ) + seq_bytes(t.blob_versioned_hashes, |h: Seq<u8>| h) + seq![if t.signature_y_parity {
            1u8
        } else {
            0u8
        }] + compact_uint(t.signature_r) + compact_uint(t.signature_s),
{
    reveal(eip4844_bytes);
    assert(hash_enc() =~= (|h: Seq<u8>| h));
    assert(transaction_bytes(TransactionView::EIP4844Transaction(t)) =~= seq![3u8] + compact_uint(
        t.chain_id as nat,
    ) + compact_uint(t.nonce as nat) + compact_uint(t.max_priority_fee_per_gas as nat)
        + compact_uint(t.max_fee_per_gas as nat) + compact_uint(t.gas as nat) + t.to
        + compact_uint(t.value) + compact_bytes(t.data) + access_list_bytes(t.access_list)
        + compact_uint(t.max_fee_per_blob_gas) + compact_uint(
        len_prefix(t.blob_versioned_hashes.len()),
    ) + seq_bytes(t.blob_versioned_hashes, |h: Seq<u8>| h) + seq![if t.signature_y_parity {
        1u8
    } else {
        0u8
    }] + compact_uint(t.signature_r) + compact_uint(t.signature_s));
}

/// An EIP-7702 transaction is written as the type byte 4, then chain_id,
/// nonce, max_priority_fee_per_gas, max_fee_per_gas, gas_limit, the 20
/// recipient bytes, value, data, the access list, the authorization list,
/// the parity byte, r and s.
pub proof fn lemma_eip7702_layout(t: EIP7702TransactionView)
    ensures
        transaction_bytes(TransactionView::EIP7702Transaction(t)) == seq![4u8] + compact_uint(
            t.chain_id as nat,
        ) + compact_uint(t.nonce as nat) + compact_uint(t.max_priority_fee_per_gas as nat)
            + compact_uint(t.max_fee_per_gas as nat) + compact_uint(t.gas_limit as nat) + t.to
            + compact_uint(t.value) + compact_bytes(t.data) + access_list_bytes(t.access_list)
            + auth_list_bytes(t.authorization_list) + seq![if t.signature_y_parity {
            1u8
        } else {
            0u8
        }] + compact_uint(t.signature_r) + compact_uint(t.signature_s),
{
    reveal(eip7702_bytes);
    assert(transaction_bytes(TransactionView::EIP7702Transaction(t)) =~= seq![4u8] + compact_uint(
        t.chain_id as nat,
    ) + compact_uint(t.nonce as nat) + compact_uint(t.max_priority_fee_per_gas as nat)
        + compact_uint(t.max_fee_per_gas as nat) + compact_uint(t.gas_limit as nat) + t.to
        + compact_uint(t.value) + compact_bytes(t.data) + access_list_bytes(t.access_list)
        + auth_list_bytes(t.authorization_list) + seq![if t.signature_y_parity {
        1u8
    } else {
        0u8
    }] + compact_uint(t.signature_r) + compact_uint(t.signature_s));
}

/// A privileged transaction is written as the type byte 0x7e, then
/// chain_id, nonce, max_priority_fee_per_gas, max_fee_per_gas, gas_limit, the
/// recipient, value, data, the access list and the 20 sender bytes.
pub proof fn lemma_privileged_layout(t: PrivilegedL2TransactionView)
    ensures
        transaction_bytes(TransactionView::PrivilegedL2Transaction(t)) == seq![0x7eu8]
            + compact_uint(t.chain_id as nat) + compact_uint(t.nonce as nat) + compact_uint(
            t.max_priority_fee_per_gas as nat,
        ) + compact_uint(t.max_fee_per_gas as nat) + compact_uint(t.gas_limit as nat)
            + txkind_bytes(t.to) + compact_uint(t.value) + compact_bytes(t.data) + access_list_bytes(
            t.access_list,
        ) + t.from,
{
    reveal(privileged_bytes);
    assert(transaction_bytes(TransactionView::PrivilegedL2Transaction(t)) =~= seq![0x7eu8]
        + compact_uint(t.chain_id as nat) + compact_uint(t.nonce as nat) + compact_uint(
        t.max_priority_fee_per_gas as nat,
    ) + compact_uint(t.max_fee_per_gas as nat) + compact_uint(t.gas_limit as nat) + txkind_bytes(
        t.to,
    ) + compact_uint(t.value) + compact_bytes(t.data) + access_list_bytes(t.access_list) + t.from);
}

/// A fee token transaction is written as the type byte 0x7d, then chain_id,
/// nonce, max_priority_fee_per_gas, max_fee_per_gas, gas_limit, the
/// recipient, value, data, the access list, the 20 fee token bytes, the
/// parity byte, r and s.
pub proof fn lemma_fee_token_layout(t: FeeTokenTransactionView)
    ensures
        transaction_bytes(TransactionView::FeeTokenTransaction(t)) == seq![0x7du8] + compact_uint(
            t.chain_id as nat,
        ) + compact_uint(t.nonce as nat) + compact_uint(t.max_priority_fee_per_gas as nat)
            + compact_uint(t.max_fee_per_gas as nat) + compact_uint(t.gas_limit as nat)
            + txkind_bytes(t.to) + compact_uint(t.value) + compact_bytes(t.data) + access_list_bytes(
            t.access_list,
        ) + t.fee_token + seq![if t.signature_y_parity { 1u8 } else { 0u8 }] + compact_uint(
            t.signature_r,
        ) + compact_uint(t.signature_s),
{
    reveal(fee_token_bytes);
    assert(transaction_bytes(TransactionView::FeeTokenTransaction(t)) =~= seq![0x7du8]
        + compact_uint(t.chain_id as nat) + compact_uint(t.nonce as nat) + compact_uint(
        t.max_priority_fee_per_gas as nat,
    ) + compact_uint(t.max_fee_per_gas as nat) + compact_uint(t.gas_limit as nat) + txkind_bytes(
        t.to,
    ) + compact_uint(t.value) + compact_bytes(t.data) + access_list_bytes(t.access_list)
        + t.fee_token + seq![if t.signature_y_parity { 1u8 } else { 0u8 }] + compact_uint(
        t.signature_r,
    ) + compact_uint(t.signature_s));
}

} // verus!
