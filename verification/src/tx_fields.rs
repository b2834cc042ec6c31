//! The parts that transactions share: the recipient kind, access lists and
//! authorization lists.
use vstd::prelude::*;

use crate::error::StoreError;
use crate::fixed::{
    all_hashes, hash_enc, hash_parser, lemma_fixed_roundtrip, lemma_hashes_roundtrip,
    parse_fixed, Address, H256, U256,
};
use crate::lists::{
    lemma_assoc,
    lemma_parse_seq_fails, lemma_seq_bytes_push, lemma_seq_roundtrip, lemma_take_push,
    lemma_views_push, parse_seq, seq_bytes, views,
};
use crate::primitives::{
    compact_uint, decode_u256, decode_u32, decode_u64, encode_u256, encode_u32, encode_u64,
    len_as_u32, len_prefix, lemma_compact_uint_roundtrip, lemma_u32_roundtrip,
    lemma_u64_roundtrip, parse_u256, parse_u32, parse_u64, pow256, push_slice,
};

verus! {

// ---------------------------------------------------------------------------
// TxKind
// ---------------------------------------------------------------------------

/// The recipient of a transaction: a contract creation or a call.
#[derive(Debug, Clone, Copy, PartialEq, Eq)]
pub enum TxKind {
    Create,
    Call(Address),
}

pub enum TxKindView {
    Create,
    Call(Seq<u8>),
}

impl View for TxKind {
    type V = TxKindView;

    open spec fn view(&self) -> TxKindView {
        match self {
            TxKind::Create => TxKindView::Create,
            TxKind::Call(a) => TxKindView::Call(a@),
        }
    }
}

impl TxKindView {
    pub open spec fn wf(self) -> bool {
        self matches TxKindView::Call(a) ==> a.len() == 20
    }
}

/// TxKind layout: [0] for a creation, [1, address: 20 bytes raw] for a call.
#[verifier::opaque]
pub open spec fn txkind_bytes(k: TxKindView) -> Seq<u8> {
    match k {
        TxKindView::Create => seq![0u8],
        TxKindView::Call(a) => seq![1u8] + a,
    }
}

/// Reads a recipient; any first byte other than 0 and 1 is refused.
pub open spec fn parse_txkind(s: Seq<u8>) -> Option<(TxKindView, Seq<u8>)> {
    if s.len() == 0 {
        None
    } else if s[0] == 0 {
        Some((TxKindView::Create, s.subrange(1, s.len() as int)))
    } else if s[0] == 1 {
        match parse_fixed(s.subrange(1, s.len() as int), 20) {
            Some((a, r)) => Some((TxKindView::Call(a), r)),
            None => None,
        }
    } else {
        None
    }
}

pub proof fn lemma_txkind_roundtrip(k: TxKindView, rest: Seq<u8>)
    requires
        k.wf(),
    ensures
        parse_txkind(txkind_bytes(k) + rest) == Some((k, rest)),
{
    reveal(txkind_bytes);
    let s = txkind_bytes(k) + rest;
    match k {
        TxKindView::Create => {
            assert(s.subrange(1, s.len() as int) =~= rest);
        },
        TxKindView::Call(a) => {
            assert(s.subrange(1, s.len() as int) =~= a + rest);
            lemma_fixed_roundtrip(a, rest);
        },
    }
}

pub(crate) fn encode_txkind(kind: &TxKind, buf: &mut Vec<u8>)
    ensures
        final(buf)@ == old(buf)@ + txkind_bytes(kind@),
{
    reveal(txkind_bytes);
    match kind {
        TxKind::Create => {
            buf.push(0);
            assert(buf@ =~= old(buf)@ + txkind_bytes(kind@));
        },
        TxKind::Call(addr) => {
            buf.push(1);
            push_slice(addr.as_bytes(), buf);
            assert(buf@ =~= old(buf)@ + txkind_bytes(kind@));
        },
    }
}

pub(crate) fn decode_txkind(buf: &[u8]) -> (res: Result<(TxKind, &[u8]), StoreError>)
    ensures
        res is Ok <==> parse_txkind(buf@) is Some,
        res matches Ok((k, rest)) ==> parse_txkind(buf@) == Some((k@, rest@)),
{
    if buf.len() == 0 {
        return Err(StoreError::DecodeError);
    }
    let flag = buf[0];
    let (_, rest) = buf.split_at(1);
    match flag {
        0 => Ok((TxKind::Create, rest)),
        1 => {
            if rest.len() < 20 {
                return Err(StoreError::DecodeError);
            }
            let (addr_bytes, rest) = rest.split_at(20);
            Ok((TxKind::Call(Address::from_slice(addr_bytes)), rest))
        },
        _ => Err(StoreError::DecodeError),
    }
}

// ---------------------------------------------------------------------------
// AccessList
// ---------------------------------------------------------------------------

/// Addresses with the storage keys that a transaction declares it touches.
pub type AccessList = Vec<(Address, Vec<H256>)>;

pub open spec fn access_entry_view(e: (Address, Vec<H256>)) -> (Seq<u8>, Seq<Seq<u8>>) {
    (e.0@, views(e.1@))
}

pub open spec fn access_list_view(l: AccessList) -> Seq<(Seq<u8>, Seq<Seq<u8>>)> {
    l@.map_values(|e: (Address, Vec<H256>)| access_entry_view(e))
}

pub open spec fn access_entry_wf(e: (Seq<u8>, Seq<Seq<u8>>)) -> bool {
    e.0.len() == 20 && all_hashes(e.1)
}

/// An access list with 20-byte addresses, 32-byte keys, and counts that fit
/// their `u32` prefixes.
pub open spec fn access_list_encodable(l: Seq<(Seq<u8>, Seq<Seq<u8>>)>) -> bool {
    &&& l.len() <= u32::MAX
    &&& forall|i: int|
        0 <= i < l.len() ==> access_entry_wf(#[trigger] l[i]) && l[i].1.len() <= u32::MAX
}

/// Access list entry layout:
///   [address: 20 bytes raw]
///   [key_count: compact u32]
///   for each key: [key: 32 bytes raw]
pub open spec fn access_entry_bytes(e: (Seq<u8>, Seq<Seq<u8>>)) -> Seq<u8> {
    e.0 + compact_uint(len_prefix(e.1.len())) + seq_bytes(e.1, hash_enc())
}

pub open spec fn parse_access_entry(s: Seq<u8>) -> Option<((Seq<u8>, Seq<Seq<u8>>), Seq<u8>)> {
    match parse_fixed(s, 20) {
        None => None,
        Some((addr, r1)) => match parse_u32(r1) {
            None => None,
            Some((n, r2)) => match parse_seq(r2, n as nat, hash_parser()) {
                None => None,
                Some((keys, r3)) => Some(((addr, keys), r3)),
            },
        },
    }
}

pub open spec fn access_entry_enc() -> spec_fn((Seq<u8>, Seq<Seq<u8>>)) -> Seq<u8> {
    |e: (Seq<u8>, Seq<Seq<u8>>)| access_entry_bytes(e)
}

pub open spec fn access_entry_parser() -> spec_fn(Seq<u8>) -> Option<
    ((Seq<u8>, Seq<Seq<u8>>), Seq<u8>),
> {
    |s: Seq<u8>| parse_access_entry(s)
}

/// Access list layout: [count: compact u32] then each entry.
pub open spec fn access_list_bytes(l: Seq<(Seq<u8>, Seq<Seq<u8>>)>) -> Seq<u8> {
    compact_uint(len_prefix(l.len())) + seq_bytes(l, access_entry_enc())
}

pub open spec fn parse_access_list(s: Seq<u8>) -> Option<(Seq<(Seq<u8>, Seq<Seq<u8>>)>, Seq<u8>)> {
    match parse_u32(s) {
        None => None,
        Some((n, r)) => parse_seq(r, n as nat, access_entry_parser()),
    }
}

proof fn lemma_access_entry_roundtrip(e: (Seq<u8>, Seq<Seq<u8>>), rest: Seq<u8>)
    requires
        access_entry_wf(e),
        e.1.len() <= u32::MAX,
    ensures
        parse_access_entry(access_entry_bytes(e) + rest) == Some((e, rest)),
{
    let n = e.1.len();
    let p1 = e.0;
    let p2 = compact_uint(len_prefix(n));
    let p3 = seq_bytes(e.1, hash_enc());
    let t2 = p3 + rest;
    let t1 = p2 + t2;
    lemma_assoc(p1 + p2, p3, rest);
    lemma_assoc(p1, p2, t2);
    assert(access_entry_bytes(e) + rest == p1 + t1);
    lemma_fixed_roundtrip(e.0, t1);
    assert(len_prefix(n) == n as u32 as nat);
    lemma_u32_roundtrip(n as u32, t2);
    lemma_hashes_roundtrip(e.1, rest);
}

/// An access list reads back from its encoding, leaving the bytes after it.
pub proof fn lemma_access_list_roundtrip(l: Seq<(Seq<u8>, Seq<Seq<u8>>)>, rest: Seq<u8>)
    requires
        access_list_encodable(l),
    ensures
        parse_access_list(access_list_bytes(l) + rest) == Some((l, rest)),
{
    let n = l.len();
    let t = seq_bytes(l, access_entry_enc()) + rest;
    assert(access_list_bytes(l) + rest =~= compact_uint(len_prefix(n)) + t);
    assert(len_prefix(n) == n as u32 as nat);
    lemma_u32_roundtrip(n as u32, t);
    assert forall|i: int, q: Seq<u8>| 0 <= i < l.len() implies #[trigger] (access_entry_parser())(
        (access_entry_enc())(l[i]) + q,
    ) == Some((l[i], q)) by {
        lemma_access_entry_roundtrip(l[i], q);
    }
    lemma_seq_roundtrip(l, access_entry_enc(), access_entry_parser(), rest);
}

fn encode_access_entry(addr: &Address, keys: &Vec<H256>, buf: &mut Vec<u8>)
    ensures
        final(buf)@ == old(buf)@ + access_entry_bytes((addr@, views(keys@))),
{
    push_slice(addr.as_bytes(), buf);
    encode_u32(len_as_u32(keys.len()), buf);
    let ghost start = buf@;
    let ghost ks = views(keys@);
    let mut i: usize = 0;
    while i < keys.len()
        invariant
            i <= keys.len(),
            ks == views(keys@),
            buf@ == start + seq_bytes(ks.take(i as int), hash_enc()),
        decreases keys.len() - i,
    {
        push_slice(keys[i].as_bytes(), buf);
        proof {
            lemma_take_push(ks, i as int);
            lemma_seq_bytes_push(ks.take(i as int), ks[i as int], hash_enc());
        }
        i = i + 1;
    }
    assert(ks.take(i as int) =~= ks);
    assert(buf@ =~= old(buf)@ + access_entry_bytes((addr@, views(keys@))));
}

pub(crate) fn encode_access_list(list: &AccessList, buf: &mut Vec<u8>)
    ensures
        final(buf)@ == old(buf)@ + access_list_bytes(access_list_view(*list)),
{
    encode_u32(len_as_u32(list.len()), buf);
    let ghost start = buf@;
    let ghost l = access_list_view(*list);
    let mut i: usize = 0;
    while i < list.len()
        invariant
            i <= list.len(),
            l == access_list_view(*list),
            buf@ == start + seq_bytes(l.take(i as int), access_entry_enc()),
        decreases list.len() - i,
    {
        let entry = &list[i];
        encode_access_entry(&entry.0, &entry.1, buf);
        proof {
            lemma_take_push(l, i as int);
            lemma_seq_bytes_push(l.take(i as int), l[i as int], access_entry_enc());
        }
        i = i + 1;
    }
    assert(l.take(i as int) =~= l);
    assert(buf@ =~= old(buf)@ + access_list_bytes(access_list_view(*list)));
}

#[verifier::loop_isolation(false)]
fn decode_access_entry(buf: &[u8]) -> (res: Result<((Address, Vec<H256>), &[u8]), StoreError>)
    ensures
        res is Ok <==> parse_access_entry(buf@) is Some,
        res matches Ok((e, rest)) ==> parse_access_entry(buf@) == Some((access_entry_view(e), rest@)),
{
    if buf.len() < 20 {
        return Err(StoreError::DecodeError);
    }
    let (addr_bytes, rest) = buf.split_at(20);
    let addr = Address::from_slice(addr_bytes);
    let (key_count, rest) = decode_u32(rest)?;
    let ghost after_count = rest@;
    let mut rest: &[u8] = rest;
    let mut keys: Vec<H256> = Vec::new();
    let mut i: u32 = 0;
    while i < key_count
        invariant
            i <= key_count,
            parse_seq(after_count, i as nat, hash_parser()) == Some((views(keys@), rest@)),
        decreases key_count - i,
    {
        if rest.len() < 32 {
            proof {
                assert((hash_parser())(rest@) is None);
                assert(parse_seq(after_count, (i + 1) as nat, hash_parser()) is None);
                lemma_parse_seq_fails(after_count, (i + 1) as nat, key_count as nat, hash_parser());
            }
            return Err(StoreError::DecodeError);
        }
        let (key_bytes, r) = rest.split_at(32);
        let ghost before = keys@;
        keys.push(H256::from_slice(key_bytes));
        proof {
            lemma_views_push(before, keys@.last());
            assert(before.push(keys@.last()) =~= keys@);
        }
        rest = r;
        i = i + 1;
    }
    Ok(((addr, keys), rest))
}

#[verifier::loop_isolation(false)]
pub(crate) fn decode_access_list(buf: &[u8]) -> (res: Result<(AccessList, &[u8]), StoreError>)
    ensures
        res is Ok <==> parse_access_list(buf@) is Some,
        res matches Ok((l, rest)) ==> parse_access_list(buf@) == Some((access_list_view(l), rest@)),
{
    let (count, rest) = decode_u32(buf)?;
    let ghost after_count = rest@;
    let mut rest: &[u8] = rest;
    let mut list: AccessList = Vec::new();
    let mut i: u32 = 0;
    while i < count
        invariant
            i <= count,
            parse_seq(after_count, i as nat, access_entry_parser()) == Some(
                (access_list_view(list), rest@),
            ),
        decreases count - i,
    {
        let (entry, r) = match decode_access_entry(rest) {
            Ok(x) => x,
            Err(e) => {
                proof {
                    assert((access_entry_parser())(rest@) is None);
                    assert(parse_seq(after_count, (i + 1) as nat, access_entry_parser()) is None);
                    lemma_parse_seq_fails(after_count, (i + 1) as nat, count as nat, access_entry_parser());
                }
                return Err(e);
            },
        };
        let ghost before = list;
        list.push(entry);
        proof {
            assert(access_list_view(before).push(access_entry_view(list@.last())) =~= access_list_view(
                list,
            ));
        }
        rest = r;
        i = i + 1;
    }
    Ok((list, rest))
}

// ---------------------------------------------------------------------------
// AuthorizationList
// ---------------------------------------------------------------------------

/// A signed authorization to set an account's code (EIP-7702).
#[derive(Debug, Clone, Copy, PartialEq, Eq)]
pub struct AuthorizationTuple {
    pub chain_id: U256,
    pub address: Address,
    pub nonce: u64,
    pub y_parity: U256,
    pub r_signature: U256,
    pub s_signature: U256,
}

pub struct AuthorizationTupleView {
    pub chain_id: nat,
    pub address: Seq<u8>,
    pub nonce: u64,
    pub y_parity: nat,
    pub r_signature: nat,
    pub s_signature: nat,
}

impl View for AuthorizationTuple {
    type V = AuthorizationTupleView;

    open spec fn view(&self) -> AuthorizationTupleView {
        AuthorizationTupleView {
            chain_id: self.chain_id@,
            address: self.address@,
            nonce: self.nonce,
            y_parity: self.y_parity@,
            r_signature: self.r_signature@,
            s_signature: self.s_signature@,
        }
    }
}

impl AuthorizationTupleView {
    pub open spec fn wf(self) -> bool {
        &&& self.chain_id < pow256(32)
        &&& self.address.len() == 20
        &&& self.y_parity < pow256(32)
        &&& self.r_signature < pow256(32)
        &&& self.s_signature < pow256(32)
    }
}

pub type AuthorizationList = Vec<AuthorizationTuple>;

/// Authorization layout:
///   [chain_id: compact U256]
///   [address: 20 bytes raw]
///   [nonce: compact u64]
///   [y_parity, r_signature, s_signature: compact U256 each]
pub open spec fn auth_bytes(a: AuthorizationTupleView) -> Seq<u8> {
    compact_uint(a.chain_id) + a.address + compact_uint(a.nonce as nat) + compact_uint(a.y_parity)
        + compact_uint(a.r_signature) + compact_uint(a.s_signature)
}

pub open spec fn parse_auth(s: Seq<u8>) -> Option<(AuthorizationTupleView, Seq<u8>)> {
    match parse_u256(s) { None => None, Some((chain_id, s)) =>
    match parse_fixed(s, 20) { None => None, Some((address, s)) =>
    match parse_u64(s) { None => None, Some((nonce, s)) =>
    match parse_u256(s) { None => None, Some((y_parity, s)) =>
    match parse_u256(s) { None => None, Some((r_signature, s)) =>
    match parse_u256(s) { None => None, Some((s_signature, s)) =>
    Some((AuthorizationTupleView { chain_id, address, nonce, y_parity, r_signature, s_signature }, s))
    }}}}}}
}

pub open spec fn auth_enc() -> spec_fn(AuthorizationTupleView) -> Seq<u8> {
    |a: AuthorizationTupleView| auth_bytes(a)
}

pub open spec fn auth_parser() -> spec_fn(Seq<u8>) -> Option<(AuthorizationTupleView, Seq<u8>)> {
    |s: Seq<u8>| parse_auth(s)
}

/// Authorization list layout: [count: compact u32] then each authorization.
pub open spec fn auth_list_bytes(l: Seq<AuthorizationTupleView>) -> Seq<u8> {
    compact_uint(len_prefix(l.len())) + seq_bytes(l, auth_enc())
}

pub open spec fn parse_auth_list(s: Seq<u8>) -> Option<(Seq<AuthorizationTupleView>, Seq<u8>)> {
    match parse_u32(s) {
        None => None,
        Some((n, r)) => parse_seq(r, n as nat, auth_parser()),
    }
}

pub open spec fn auth_list_encodable(l: Seq<AuthorizationTupleView>) -> bool {
    l.len() <= u32::MAX && forall|i: int| 0 <= i < l.len() ==> (#[trigger] l[i]).wf()
}

proof fn lemma_auth_roundtrip(a: AuthorizationTupleView, rest: Seq<u8>)
    requires
        a.wf(),
    ensures
        parse_auth(auth_bytes(a) + rest) == Some((a, rest)),
{
    let p1 = compact_uint(a.chain_id);
    let p2 = a.address;
    let p3 = compact_uint(a.nonce as nat);
    let p4 = compact_uint(a.y_parity);
    let p5 = compact_uint(a.r_signature);
    let p6 = compact_uint(a.s_signature);
    let t5 = p6 + rest;
    let t4 = p5 + t5;
    let t3 = p4 + t4;
    let t2 = p3 + t3;
    let t1 = p2 + t2;
    lemma_assoc(p1 + p2 + p3 + p4 + p5, p6, rest);
    lemma_assoc(p1 + p2 + p3 + p4, p5, t5);
    lemma_assoc(p1 + p2 + p3, p4, t4);
    lemma_assoc(p1 + p2, p3, t3);
    lemma_assoc(p1, p2, t2);
    assert(auth_bytes(a) + rest == p1 + t1);
    lemma_compact_uint_roundtrip(a.chain_id, 32, t1);
    lemma_fixed_roundtrip(a.address, t2);
    lemma_u64_roundtrip(a.nonce, t3);
    lemma_compact_uint_roundtrip(a.y_parity, 32, t4);
    lemma_compact_uint_roundtrip(a.r_signature, 32, t5);
    lemma_compact_uint_roundtrip(a.s_signature, 32, rest);
}

/// An authorization list reads back from its encoding, leaving the bytes
/// after it.
pub proof fn lemma_auth_list_roundtrip(l: Seq<AuthorizationTupleView>, rest: Seq<u8>)
    requires
        auth_list_encodable(l),
    ensures
        parse_auth_list(auth_list_bytes(l) + rest) == Some((l, rest)),
{
    let n = l.len();
    let t = seq_bytes(l, auth_enc()) + rest;
    assert(auth_list_bytes(l) + rest =~= compact_uint(len_prefix(n)) + t);
    assert(len_prefix(n) == n as u32 as nat);
    lemma_u32_roundtrip(n as u32, t);
    assert forall|i: int, q: Seq<u8>| 0 <= i < l.len() implies #[trigger] (auth_parser())(
        (auth_enc())(l[i]) + q,
    ) == Some((l[i], q)) by {
        lemma_auth_roundtrip(l[i], q);
    }
    lemma_seq_roundtrip(l, auth_enc(), auth_parser(), rest);
}

fn encode_auth(a: &AuthorizationTuple, buf: &mut Vec<u8>)
    ensures
        final(buf)@ == old(buf)@ + auth_bytes(a@),
{
    encode_u256(&a.chain_id, buf);
    push_slice(a.address.as_bytes(), buf);
    encode_u64(a.nonce, buf);
    encode_u256(&a.y_parity, buf);
    encode_u256(&a.r_signature, buf);
    encode_u256(&a.s_signature, buf);
    assert(buf@ =~= old(buf)@ + auth_bytes(a@));
}

pub(crate) fn encode_authorization_list(list: &AuthorizationList, buf: &mut Vec<u8>)
    ensures
        final(buf)@ == old(buf)@ + auth_list_bytes(views(list@)),
{
    encode_u32(len_as_u32(list.len()), buf);
    let ghost start = buf@;
    let ghost l = views(list@);
    let mut i: usize = 0;
    while i < list.len()
        invariant
            i <= list.len(),
            l == views(list@),
            buf@ == start + seq_bytes(l.take(i as int), auth_enc()),
        decreases list.len() - i,
    {
        encode_auth(&list[i], buf);
        proof {
            lemma_take_push(l, i as int);
            lemma_seq_bytes_push(l.take(i as int), l[i as int], auth_enc());
        }
        i = i + 1;
    }
    assert(l.take(i as int) =~= l);
    assert(buf@ =~= old(buf)@ + auth_list_bytes(views(list@)));
}

fn decode_auth(buf: &[u8]) -> (res: Result<(AuthorizationTuple, &[u8]), StoreError>)
    ensures
        res is Ok <==> parse_auth(buf@) is Some,
        res matches Ok((a, rest)) ==> parse_auth(buf@) == Some((a@, rest@)),
{
    let (chain_id, buf) = decode_u256(buf)?;
    if buf.len() < 20 {
        return Err(StoreError::DecodeError);
    }
    let (addr_bytes, buf) = buf.split_at(20);
    let address = Address::from_slice(addr_bytes);
    let (nonce, buf) = decode_u64(buf)?;
    let (y_parity, buf) = decode_u256(buf)?;
    let (r_signature, buf) = decode_u256(buf)?;
    let (s_signature, buf) = decode_u256(buf)?;
    Ok((AuthorizationTuple { chain_id, address, nonce, y_parity, r_signature, s_signature }, buf))
}

#[verifier::loop_isolation(false)]
pub(crate) fn decode_authorization_list(buf: &[u8]) -> (res: Result<(AuthorizationList, &[u8]), StoreError>)
    ensures
        res is Ok <==> parse_auth_list(buf@) is Some,
        res matches Ok((l, rest)) ==> parse_auth_list(buf@) == Some((views(l@), rest@)),
{
    let (count, rest) = decode_u32(buf)?;
    let ghost after_count = rest@;
    let mut rest: &[u8] = rest;
    let mut list: AuthorizationList = Vec::new();
    let mut i: u32 = 0;
    while i < count
        invariant
            i <= count,
            parse_seq(after_count, i as nat, auth_parser()) == Some((views(list@), rest@)),
        decreases count - i,
    {
        let (item, r) = match decode_auth(rest) {
            Ok(x) => x,
            Err(e) => {
                proof {
                    assert((auth_parser())(rest@) is None);
                    assert(parse_seq(after_count, (i + 1) as nat, auth_parser()) is None);
                    lemma_parse_seq_fails(after_count, (i + 1) as nat, count as nat, auth_parser());
                }
                return Err(e);
            },
        };
        let ghost before = list@;
        list.push(item);
        proof {
            lemma_views_push(before, list@.last());
            assert(before.push(list@.last()) =~= list@);
        }
        rest = r;
        i = i + 1;
    }
    Ok((list, rest))
}

// ---------------------------------------------------------------------------
// Field order
// ---------------------------------------------------------------------------

/// A contract creation is written as the single byte 0; a call as the byte
/// 1 followed by the 20 address bytes.
pub proof fn lemma_txkind_layout(k: TxKindView)
    ensures
        k matches TxKindView::Create ==> txkind_bytes(k) == seq![0u8],
        k matches TxKindView::Call(a) ==> txkind_bytes(k) == seq![1u8] + a,
{
    reveal(txkind_bytes);
}

/// An access list is written as its entry count, then each entry as its 20
/// address bytes, its storage key count and each 32-byte key.
pub proof fn lemma_access_list_layout(l: Seq<(Seq<u8>, Seq<Seq<u8>>)>)
    ensures
        access_list_bytes(l) == compact_uint(len_prefix(l.len())) + seq_bytes(
            l,
            |e: (Seq<u8>, Seq<Seq<u8>>)|
                e.0 + compact_uint(len_prefix(e.1.len())) + seq_bytes(e.1, |h: Seq<u8>| h),
        ),
{
    assert(hash_enc() =~= (|h: Seq<u8>| h));
    assert(access_entry_enc() =~= (|e: (Seq<u8>, Seq<Seq<u8>>)|
        e.0 + compact_uint(len_prefix(e.1.len())) + seq_bytes(e.1, |h: Seq<u8>| h)));
}

/// An authorization list is written as its count, then each authorization
/// as chain_id, the 20 address bytes, nonce, y_parity, r and s.
pub proof fn lemma_auth_list_layout(l: Seq<AuthorizationTupleView>)
    ensures
        auth_list_bytes(l) == compact_uint(len_prefix(l.len())) + seq_bytes(
            l,
            |a: AuthorizationTupleView|
                compact_uint(a.chain_id) + a.address + compact_uint(a.nonce as nat) + compact_uint(
                    a.y_parity,
                ) + compact_uint(a.r_signature) + compact_uint(a.s_signature),
        ),
{
    assert(auth_enc() =~= (|a: AuthorizationTupleView|
        compact_uint(a.chain_id) + a.address + compact_uint(a.nonce as nat) + compact_uint(
            a.y_parity,
        ) + compact_uint(a.r_signature) + compact_uint(a.s_signature)));
}

} // verus!
