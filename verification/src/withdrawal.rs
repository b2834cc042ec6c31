//! Validator withdrawals.
use vstd::prelude::*;

use crate::codec::{CompactDecode, CompactEncode};
use crate::error::StoreError;
use crate::lists::lemma_assoc;
use crate::fixed::{lemma_fixed_roundtrip, parse_fixed, Address};
use crate::primitives::{push_slice, compact_uint, decode_u64, encode_u64, lemma_u64_roundtrip, parse_u64};

verus! {

/// A withdrawal from the beacon chain to an execution-layer address.
#[derive(Debug, Clone, Copy, PartialEq, Eq)]
pub struct Withdrawal {
    pub index: u64,
    pub validator_index: u64,
    pub address: Address,
    pub amount: u64,
}

pub struct WithdrawalView {
    pub index: u64,
    pub validator_index: u64,
    pub address: Seq<u8>,
    pub amount: u64,
}

impl View for Withdrawal {
    type V = WithdrawalView;

    open spec fn view(&self) -> WithdrawalView {
        WithdrawalView {
            index: self.index,
            validator_index: self.validator_index,
            address: self.address@,
            amount: self.amount,
        }
    }
}

impl WithdrawalView {
    /// What every withdrawal satisfies: a 20-byte address.
    pub open spec fn wf(self) -> bool {
        self.address.len() == 20
    }
}

/// Withdrawal layout:
///   [index: compact u64]
///   [validator_index: compact u64]
///   [address: 20 bytes raw]
///   [amount: compact u64]
pub open spec fn withdrawal_bytes(w: WithdrawalView) -> Seq<u8> {
    compact_uint(w.index as nat) + compact_uint(w.validator_index as nat) + w.address + compact_uint(
        w.amount as nat,
    )
}

pub open spec fn parse_withdrawal(s: Seq<u8>) -> Option<(WithdrawalView, Seq<u8>)> {
    match parse_u64(s) {
        Some((index, r1)) => match parse_u64(r1) {
            Some((validator_index, r2)) => match parse_fixed(r2, 20) {
                Some((address, r3)) => match parse_u64(r3) {
                    Some((amount, r4)) => Some(
                        (WithdrawalView { index, validator_index, address, amount }, r4),
                    ),
                    None => None,
                },
                None => None,
            },
            None => None,
        },
        None => None,
    }
}

/// A withdrawal is written as its index, its validator index, its 20
/// address bytes and its amount, in that order.
pub proof fn lemma_withdrawal_layout(w: WithdrawalView)
    ensures
        withdrawal_bytes(w) == compact_uint(w.index as nat) + compact_uint(w.validator_index as nat)
            + w.address + compact_uint(w.amount as nat),
{
}

/// Reading back the encoding of a withdrawal gives it back, and the bytes
/// after it are left as they were.
pub proof fn lemma_withdrawal_view_roundtrip(w: WithdrawalView, rest: Seq<u8>)
    requires
        w.wf(),
    ensures
        parse_withdrawal(withdrawal_bytes(w) + rest) == Some((w, rest)),
{
    let p1 = compact_uint(w.index as nat);
    let p2 = compact_uint(w.validator_index as nat);
    let p3 = w.address;
    let p4 = compact_uint(w.amount as nat);
    let t3 = p4 + rest;
    let t2 = p3 + t3;
    let t1 = p2 + t2;
    lemma_assoc(p1 + p2 + p3, p4, rest);
    lemma_assoc(p1 + p2, p3, t3);
    lemma_assoc(p1, p2, t2);
    assert(withdrawal_bytes(w) + rest == p1 + t1);
    lemma_u64_roundtrip(w.index, t1);
    lemma_u64_roundtrip(w.validator_index, t2);
    lemma_fixed_roundtrip(w.address, t3);
    lemma_u64_roundtrip(w.amount, rest);
}

/// Decoding the encoding of a withdrawal gives the same withdrawal, and the
/// bytes after it are left as they were.
pub proof fn lemma_withdrawal_roundtrip(w: Withdrawal, rest: Seq<u8>)
    ensures
        Withdrawal::compact_parse(w.compact_form() + rest) == Some((w@, rest)),
{
    lemma_withdrawal_view_roundtrip(w@, rest);
}

impl CompactEncode for Withdrawal {
    open spec fn compact_form(&self) -> Seq<u8> {
        withdrawal_bytes(self@)
    }

    fn compact_encode(&self, buf: &mut Vec<u8>) {
        encode_u64(self.index, buf);
        encode_u64(self.validator_index, buf);
        push_slice(self.address.as_bytes(), buf);
        encode_u64(self.amount, buf);
        assert(buf@ =~= old(buf)@ + withdrawal_bytes(self@));
    }
}

impl CompactDecode for Withdrawal {
    open spec fn compact_parse(buf: Seq<u8>) -> Option<(WithdrawalView, Seq<u8>)> {
        parse_withdrawal(buf)
    }

    fn compact_decode(buf: &[u8]) -> (res: Result<(Self, &[u8]), StoreError>) {
        let (index, buf) = decode_u64(buf)?;
        let (validator_index, buf) = decode_u64(buf)?;
        if buf.len() < 20 {
            return Err(StoreError::DecodeError);
        }
        let (addr_bytes, buf) = buf.split_at(20);
        let address = Address::from_slice(addr_bytes);
        let (amount, buf) = decode_u64(buf)?;
        Ok((Withdrawal { index, validator_index, address, amount }, buf))
    }
}

} // verus!
