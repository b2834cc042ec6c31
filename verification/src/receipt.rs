//! Transaction receipts and the logs they carry.
use vstd::prelude::*;

use crate::codec::{CompactDecode, CompactEncode};
use crate::error::StoreError;
use crate::fixed::{
    all_hashes, hash_enc, hash_parser, lemma_fixed_roundtrip, lemma_fixed_truncated,
    lemma_hashes_roundtrip, lemma_hashes_truncated, parse_fixed,
    Address, H256,
};
use crate::lists::{
    is_strict_prefix, lemma_seq_truncated, lemma_split_prefix,
    lemma_assoc,
    lemma_parse_seq_fails, lemma_seq_bytes_push, lemma_seq_roundtrip, lemma_take_push,
    lemma_views_push, parse_seq, seq_bytes, views,
};
use crate::primitives::{push_slice, 
    compact_bytes, compact_uint, decode_bytes, decode_u32, decode_u64, encode_bytes, encode_u32,
    encode_u64, len_as_u32, len_prefix, lemma_bytes_roundtrip, lemma_bytes_truncated, lemma_u32_roundtrip, lemma_u32_truncated,
    lemma_u64_truncated,
    lemma_u64_roundtrip, parse_bytes, parse_u32, parse_u64,
};
use crate::shared_bytes::{bytes_as_slice, bytes_contents, bytes_copy_from_slice};
use crate::tx_type::{lemma_tx_type_roundtrip, TxType};

verus! {

/// A log entry emitted by a transaction.
#[derive(Debug, PartialEq, Eq)]
pub struct Log {
    pub address: Address,
    pub topics: Vec<H256>,
    pub data: bytes::Bytes,
}

pub struct LogView {
    pub address: Seq<u8>,
    pub topics: Seq<Seq<u8>>,
    pub data: Seq<u8>,
}

impl View for Log {
    type V = LogView;

    open spec fn view(&self) -> LogView {
        LogView { address: self.address@, topics: views(self.topics@), data: bytes_contents(self.data) }
    }
}

impl LogView {
    /// What every log satisfies: a 20-byte address and 32-byte topics.
    pub open spec fn wf(self) -> bool {
        self.address.len() == 20 && all_hashes(self.topics)
    }

    /// A log whose counts fit their `u32` length prefixes.
    pub open spec fn encodable(self) -> bool {
        &&& self.wf()
        &&& self.topics.len() <= u32::MAX
        &&& self.data.len() <= u32::MAX
    }
}

/// Log layout:
///   [address: 20 bytes raw]
///   [topics_count: compact u32]
///   for each topic: [topic: 32 bytes raw]
///   [data: compact bytes]
pub open spec fn log_bytes(l: LogView) -> Seq<u8> {
    l.address + compact_uint(len_prefix(l.topics.len())) + seq_bytes(l.topics, hash_enc())
        + compact_bytes(l.data)
}

pub open spec fn parse_log(s: Seq<u8>) -> Option<(LogView, Seq<u8>)> {
    match parse_fixed(s, 20) {
        Some((address, r1)) => match parse_u32(r1) {
            Some((n, r2)) => match parse_seq(r2, n as nat, hash_parser()) {
                Some((topics, r3)) => match parse_bytes(r3) {
                    Some((data, r4)) => Some((LogView { address, topics, data }, r4)),
                    None => None,
                },
                None => None,
            },
            None => None,
        },
        None => None,
    }
}

pub open spec fn log_enc() -> spec_fn(LogView) -> Seq<u8> {
    |l: LogView| log_bytes(l)
}

pub open spec fn log_parser() -> spec_fn(Seq<u8>) -> Option<(LogView, Seq<u8>)> {
    |s: Seq<u8>| parse_log(s)
}

/// A log is written as its 20 address bytes, its topic count (modulo
/// 2^32), its topics one after another, then its data as a byte string; a
/// receipt writes and reads each of its logs in exactly that form.
pub proof fn lemma_log_layout(l: LogView, s: Seq<u8>)
    ensures
        log_bytes(l) == l.address + compact_uint(l.topics.len() % 0x1_0000_0000) + seq_bytes(
            l.topics,
            hash_enc(),
        ) + compact_bytes(l.data),
        (log_enc())(l) == log_bytes(l),
        (log_parser())(s) == parse_log(s),
{
}

/// A log reads back from its encoding, leaving the bytes after it.
pub proof fn lemma_log_roundtrip(l: LogView, rest: Seq<u8>)
    requires
        l.encodable(),
    ensures
        parse_log(log_bytes(l) + rest) == Some((l, rest)),
{
    let n = l.topics.len();
    let p1 = l.address;
    let p2 = compact_uint(len_prefix(n));
    let p3 = seq_bytes(l.topics, hash_enc());
    let p4 = compact_bytes(l.data);
    let t3 = p4 + rest;
    let t2 = p3 + t3;
    let t1 = p2 + t2;
    lemma_assoc(p1 + p2 + p3, p4, rest);
    lemma_assoc(p1 + p2, p3, t3);
    lemma_assoc(p1, p2, t2);
    assert(log_bytes(l) + rest == p1 + t1);
    lemma_fixed_roundtrip(l.address, t1);
    assert(len_prefix(n) == n as u32 as nat);
    lemma_u32_roundtrip(n as u32, t2);
    lemma_hashes_roundtrip(l.topics, t3);
    lemma_bytes_roundtrip(l.data, rest);
}

/// A strict prefix of a log's encoding does not read as a log.
pub proof fn lemma_log_truncated(l: LogView, q: Seq<u8>)
    requires
        l.encodable(),
        is_strict_prefix(q, log_bytes(l)),
    ensures
        parse_log(q) is None,
{
    let n = l.topics.len();
    assert(len_prefix(n) == n as u32 as nat);
    let p1 = l.address;
    let p2 = compact_uint(len_prefix(n));
    let p3 = seq_bytes(l.topics, hash_enc());
    let p4 = compact_bytes(l.data);
    assert(log_bytes(l) =~= p1 + (p2 + (p3 + p4)));
    lemma_split_prefix(q, p1, p2 + (p3 + p4));
    if is_strict_prefix(q, p1) {
        lemma_fixed_truncated(p1, q);
    } else {
        let q1 = q.subrange(p1.len() as int, q.len() as int);
        lemma_fixed_roundtrip(p1, q1);
        lemma_split_prefix(q1, p2, p3 + p4);
        if is_strict_prefix(q1, p2) {
            lemma_u32_truncated(n as u32, q1);
        } else {
            let q2 = q1.subrange(p2.len() as int, q1.len() as int);
            lemma_u32_roundtrip(n as u32, q2);
            lemma_split_prefix(q2, p3, p4);
            if is_strict_prefix(q2, p3) {
                lemma_hashes_truncated(l.topics, q2);
            } else {
                let q3 = q2.subrange(p3.len() as int, q2.len() as int);
                lemma_hashes_roundtrip(l.topics, q3);
                lemma_bytes_truncated(l.data, q3);
            }
        }
    }
}

fn encode_log(log: &Log, buf: &mut Vec<u8>)
    ensures
        final(buf)@ == old(buf)@ + log_bytes(log@),
{
    push_slice(log.address.as_bytes(), buf);
    encode_u32(len_as_u32(log.topics.len()), buf);
    let ghost start = buf@;
    let ghost topics = views(log.topics@);
    let mut i: usize = 0;
    while i < log.topics.len()
        invariant
            i <= log.topics.len(),
            topics == views(log.topics@),
            buf@ == start + seq_bytes(topics.take(i as int), hash_enc()),
        decreases log.topics.len() - i,
    {
        push_slice(log.topics[i].as_bytes(), buf);
        proof {
            lemma_take_push(topics, i as int);
            lemma_seq_bytes_push(topics.take(i as int), topics[i as int], hash_enc());
        }
        i = i + 1;
    }
    assert(topics.take(i as int) =~= topics);
    encode_bytes(bytes_as_slice(&log.data), buf);
    assert(buf@ =~= old(buf)@ + log_bytes(log@));
}

#[verifier::loop_isolation(false)]
fn decode_log(buf: &[u8]) -> (res: Result<(Log, &[u8]), StoreError>)
    ensures
        res is Ok <==> parse_log(buf@) is Some,
        res matches Ok((l, rest)) ==> parse_log(buf@) == Some((l@, rest@)),
{
    if buf.len() < 20 {
        return Err(StoreError::DecodeError);
    }
    let (addr_bytes, rest) = buf.split_at(20);
    let address = Address::from_slice(addr_bytes);
    let (topic_count, rest) = decode_u32(rest)?;
    let ghost after_count = rest@;
    let mut rest: &[u8] = rest;
    let mut topics: Vec<H256> = Vec::new();
    let mut i: u32 = 0;
    while i < topic_count
        invariant
            i <= topic_count,
            parse_seq(after_count, i as nat, hash_parser()) == Some((views(topics@), rest@)),
        decreases topic_count - i,
    {
        if rest.len() < 32 {
            proof {
                assert((hash_parser())(rest@) is None);
                assert(parse_seq(after_count, (i + 1) as nat, hash_parser()) is None);
                lemma_parse_seq_fails(after_count, (i + 1) as nat, topic_count as nat, hash_parser());
            }
            return Err(StoreError::DecodeError);
        }
        let (topic_bytes, r) = rest.split_at(32);
        let ghost before = topics@;
        topics.push(H256::from_slice(topic_bytes));
        proof {
            lemma_views_push(before, topics@.last());
            assert(before.push(topics@.last()) =~= topics@);
        }
        rest = r;
        i = i + 1;
    }
    let (data_bytes, rest) = decode_bytes(rest)?;
    let data = bytes_copy_from_slice(data_bytes);
    Ok((Log { address, topics, data }, rest))
}

/// The receipt of an executed transaction.
#[derive(Debug, PartialEq, Eq)]
pub struct Receipt {
    pub tx_type: TxType,
    pub succeeded: bool,
    pub cumulative_gas_used: u64,
    pub logs: Vec<Log>,
}

pub struct ReceiptView {
    pub tx_type: TxType,
    pub succeeded: bool,
    pub cumulative_gas_used: u64,
    pub logs: Seq<LogView>,
}

impl View for Receipt {
    type V = ReceiptView;

    open spec fn view(&self) -> ReceiptView {
        ReceiptView {
            tx_type: self.tx_type,
            succeeded: self.succeeded,
            cumulative_gas_used: self.cumulative_gas_used,
            logs: views(self.logs@),
        }
    }
}

impl ReceiptView {
    /// A receipt whose logs all have 20-byte addresses and 32-byte topics.
    pub open spec fn wf(self) -> bool {
        forall|i: int| 0 <= i < self.logs.len() ==> (#[trigger] self.logs[i]).wf()
    }

    /// A receipt whose counts and lengths all fit their `u32` prefixes.
    pub open spec fn encodable(self) -> bool {
        &&& self.logs.len() <= u32::MAX
        &&& forall|i: int| 0 <= i < self.logs.len() ==> (#[trigger] self.logs[i]).encodable()
    }
}

/// The flags byte of a receipt: bit 0 holds `succeeded`.
pub open spec fn receipt_flags(succeeded: bool) -> u8 {
    if succeeded {
        1
    } else {
        0
    }
}

/// Receipt compact encoding layout:
///   [tx_type: 1 byte]
///   [flags: 1 byte] bit 0 = succeeded
///   [cumulative_gas_used: compact u64]
///   [logs_count: compact u32]
///   for each log: [log]
pub open spec fn receipt_bytes(r: ReceiptView) -> Seq<u8> {
    seq![r.tx_type.byte(), receipt_flags(r.succeeded)] + compact_uint(r.cumulative_gas_used as nat)
        + compact_uint(len_prefix(r.logs.len())) + seq_bytes(r.logs, log_enc())
}

/// Reads a receipt. The type byte must name a transaction kind; of the
/// flags byte only bit 0 is read.
pub open spec fn parse_receipt(s: Seq<u8>) -> Option<(ReceiptView, Seq<u8>)> {
    if s.len() == 0 {
        None
    } else {
        match TxType::from_byte(s[0]) {
            Some(tx_type) => if s.len() < 2 {
                None
            } else {
                let succeeded = s[1] & 1 != 0;
                match parse_u64(s.subrange(2, s.len() as int)) {
                    Some((cumulative_gas_used, r1)) => match parse_u32(r1) {
                        Some((n, r2)) => match parse_seq(r2, n as nat, log_parser()) {
                            Some((logs, r3)) => Some(
                                (ReceiptView { tx_type, succeeded, cumulative_gas_used, logs }, r3),
                            ),
                            None => None,
                        },
                        None => None,
                    },
                    None => None,
                }
            },
            None => None,
        }
    }
}

/// A receipt is written as its type byte, a flags byte holding `succeeded`
/// in bit 0, its cumulative gas used, its log count (modulo 2^32), then each
/// log as its 20 address bytes, its topic count, each 32-byte topic and its
/// data as a compact byte string.
pub proof fn lemma_receipt_layout(r: ReceiptView)
    ensures
        receipt_bytes(r) == seq![r.tx_type.byte(), if r.succeeded { 1u8 } else { 0u8 }]
            + compact_uint(r.cumulative_gas_used as nat) + compact_uint(
            r.logs.len() % 0x1_0000_0000,
        ) + seq_bytes(
            r.logs,
            |x: LogView|
                x.address + compact_uint(len_prefix(x.topics.len())) + seq_bytes(
                    x.topics,
                    |h: Seq<u8>| h,
                ) + compact_bytes(x.data),
        ),
{
    assert(hash_enc() =~= (|h: Seq<u8>| h));
    assert(log_enc() =~= (|x: LogView|
        x.address + compact_uint(len_prefix(x.topics.len())) + seq_bytes(x.topics, |h: Seq<u8>| h)
            + compact_bytes(x.data)));
}

/// A receipt reads back from its encoding, leaving the bytes after it.
pub proof fn lemma_receipt_view_roundtrip(r: ReceiptView, rest: Seq<u8>)
    requires
        r.encodable(),
    ensures
        parse_receipt(receipt_bytes(r) + rest) == Some((r, rest)),
{
    let n = r.logs.len();
    let t2 = seq_bytes(r.logs, log_enc()) + rest;
    let t1 = compact_uint(len_prefix(n)) + t2;
    let t0 = compact_uint(r.cumulative_gas_used as nat) + t1;
    let s = receipt_bytes(r) + rest;
    assert(s =~= seq![r.tx_type.byte(), receipt_flags(r.succeeded)] + t0);
    assert(s.subrange(2, s.len() as int) =~= t0);
    lemma_tx_type_roundtrip(r.tx_type);
    assert((1u8 & 1u8) != 0u8 && (0u8 & 1u8) == 0u8) by (bit_vector);
    lemma_u64_roundtrip(r.cumulative_gas_used, t1);
    assert(len_prefix(n) == n as u32 as nat);
    lemma_u32_roundtrip(n as u32, t2);
    assert forall|i: int, q: Seq<u8>| 0 <= i < r.logs.len() implies #[trigger] (log_parser())(
        (log_enc())(r.logs[i]) + q,
    ) == Some((r.logs[i], q)) by {
        lemma_log_roundtrip(r.logs[i], q);
    }
    lemma_seq_roundtrip(r.logs, log_enc(), log_parser(), rest);
}

/// Decoding the encoding of a receipt gives the same receipt, and the bytes
/// after it are left as they were, whenever its counts and lengths fit their
/// `u32` prefixes.
pub proof fn lemma_receipt_roundtrip(r: Receipt, rest: Seq<u8>)
    requires
        r@.encodable(),
    ensures
        Receipt::compact_parse(r.compact_form() + rest) == Some((r@, rest)),
{
    lemma_receipt_view_roundtrip(r@, rest);
}

/// A strict prefix of a receipt's encoding does not read as a receipt.
pub proof fn lemma_receipt_view_truncated(r: ReceiptView, q: Seq<u8>)
    requires
        r.encodable(),
        is_strict_prefix(q, receipt_bytes(r)),
    ensures
        parse_receipt(q) is None,
{
    let n = r.logs.len();
    assert(len_prefix(n) == n as u32 as nat);
    let h = seq![r.tx_type.byte(), receipt_flags(r.succeeded)];
    let u = compact_uint(r.cumulative_gas_used as nat);
    let c = compact_uint(len_prefix(n));
    let ls = seq_bytes(r.logs, log_enc());
    assert(receipt_bytes(r) =~= h + (u + (c + ls)));
    lemma_tx_type_roundtrip(r.tx_type);
    lemma_split_prefix(q, h, u + (c + ls));
    if is_strict_prefix(q, h) {
        if q.len() == 1 {
            assert(q[0] == r.tx_type.byte());
        }
    } else {
        let q1 = q.subrange(2, q.len() as int);
        assert(q[0] == r.tx_type.byte());
        lemma_split_prefix(q1, u, c + ls);
        if is_strict_prefix(q1, u) {
            lemma_u64_truncated(r.cumulative_gas_used, q1);
        } else {
            let q2 = q1.subrange(u.len() as int, q1.len() as int);
            crate::primitives::lemma_u64_roundtrip(r.cumulative_gas_used, q2);
            lemma_split_prefix(q2, c, ls);
            if is_strict_prefix(q2, c) {
                lemma_u32_truncated(n as u32, q2);
            } else {
                let q3 = q2.subrange(c.len() as int, q2.len() as int);
                lemma_u32_roundtrip(n as u32, q3);
                assert forall|i: int, t: Seq<u8>| 0 <= i < r.logs.len() implies #[trigger] (
                log_parser())((log_enc())(r.logs[i]) + t) == Some((r.logs[i], t)) by {
                    lemma_log_roundtrip(r.logs[i], t);
                }
                assert forall|i: int, t: Seq<u8>|
                    0 <= i < r.logs.len() && #[trigger] is_strict_prefix(t, (log_enc())(r.logs[i]))
                        implies (log_parser())(t) is None by {
                    lemma_log_truncated(r.logs[i], t);
                }
                lemma_seq_truncated(r.logs, log_enc(), log_parser(), q3);
            }
        }
    }
}

/// A strict prefix of a receipt's encoding never decodes, whenever the
/// receipt's counts and lengths fit their `u32` prefixes.
pub proof fn lemma_receipt_truncated(r: Receipt, p: Seq<u8>)
    requires
        r@.encodable(),
        is_strict_prefix(p, r.compact_form()),
    ensures
        Receipt::compact_parse(p) is None,
{
    lemma_receipt_view_truncated(r@, p);
}

impl CompactEncode for Receipt {
    open spec fn compact_form(&self) -> Seq<u8> {
        receipt_bytes(self@)
    }

    fn compact_encode(&self, buf: &mut Vec<u8>) {
        buf.push(self.tx_type.to_u8());
        buf.push(if self.succeeded { 1 } else { 0 });
        encode_u64(self.cumulative_gas_used, buf);
        encode_u32(len_as_u32(self.logs.len()), buf);
        let ghost start = buf@;
        let ghost logs = views(self.logs@);
        let mut i: usize = 0;
        while i < self.logs.len()
            invariant
                i <= self.logs.len(),
                logs == views(self.logs@),
                buf@ == start + seq_bytes(logs.take(i as int), log_enc()),
            decreases self.logs.len() - i,
        {
            encode_log(&self.logs[i], buf);
            proof {
                lemma_take_push(logs, i as int);
                lemma_seq_bytes_push(logs.take(i as int), logs[i as int], log_enc());
            }
            i = i + 1;
        }
        assert(logs.take(i as int) =~= logs);
        assert(buf@ =~= old(buf)@ + receipt_bytes(self@));
    }
}

impl CompactDecode for Receipt {
    open spec fn compact_parse(buf: Seq<u8>) -> Option<(ReceiptView, Seq<u8>)> {
        parse_receipt(buf)
    }

    #[verifier::loop_isolation(false)]
    fn compact_decode(buf: &[u8]) -> (res: Result<(Self, &[u8]), StoreError>) {
        if buf.len() == 0 {
            return Err(StoreError::DecodeError);
        }
        let tx_type = match TxType::from_u8(buf[0]) {
            Some(t) => t,
            None => return Err(StoreError::DecodeError),
        };
        if buf.len() < 2 {
            return Err(StoreError::DecodeError);
        }
        let flags = buf[1];
        let succeeded = (flags & 1) != 0;
        let (_, rest) = buf.split_at(2);
        let (cumulative_gas_used, rest) = decode_u64(rest)?;
        let (log_count, rest) = decode_u32(rest)?;
        let ghost after_count = rest@;
        let mut rest: &[u8] = rest;
        let mut logs: Vec<Log> = Vec::new();
        let mut i: u32 = 0;
        while i < log_count
            invariant
                i <= log_count,
                parse_seq(after_count, i as nat, log_parser()) == Some((views(logs@), rest@)),
            decreases log_count - i,
        {
            let (log, r) = match decode_log(rest) {
                Ok(x) => x,
                Err(e) => {
                    proof {
                        assert((log_parser())(rest@) is None);
                        assert(parse_seq(after_count, (i + 1) as nat, log_parser()) is None);
                        lemma_parse_seq_fails(after_count, (i + 1) as nat, log_count as nat, log_parser());
                    }
                    return Err(e);
                },
            };
            let ghost before = logs@;
            logs.push(log);
            proof {
                lemma_views_push(before, logs@.last());
                assert(before.push(logs@.last()) =~= logs@);
            }
            rest = r;
            i = i + 1;
        }
        Ok((Receipt { tx_type, succeeded, cumulative_gas_used, logs }, rest))
    }
}

} // verus!
