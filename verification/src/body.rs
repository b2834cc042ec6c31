//! Block bodies: transactions, ommers and withdrawals.
use vstd::prelude::*;

use crate::codec::{CompactDecode, CompactEncode};
use crate::error::StoreError;
use crate::lists::{
    lemma_assoc, lemma_parse_seq_fails, lemma_seq_bytes_push, lemma_seq_roundtrip, lemma_take_push,
    lemma_views_push, parse_seq, seq_bytes, views,
};
use crate::primitives::{
    compact_bytes, compact_uint, decode_bytes, decode_u32, encode_bytes, encode_u32, len_as_u32,
    len_prefix, lemma_bytes_roundtrip, slice_to_vec, lemma_u32_roundtrip, parse_bytes, parse_u32,
};
use crate::transaction::{
    lemma_transaction_view_roundtrip, parse_transaction, transaction_bytes, Transaction,
    TransactionView,
};
use crate::withdrawal::{
    lemma_withdrawal_view_roundtrip, parse_withdrawal, withdrawal_bytes, Withdrawal, WithdrawalView,
};

verus! {

/// The body of a block. Each ommer header is held in its RLP encoding,
/// which this encoding stores as a compact byte string.
#[derive(Debug, PartialEq, Eq)]
pub struct BlockBody {
    pub transactions: Vec<Transaction>,
    pub ommers: Vec<Vec<u8>>,
    pub withdrawals: Option<Vec<Withdrawal>>,
}

pub struct BlockBodyView {
    pub transactions: Seq<TransactionView>,
    pub ommers: Seq<Seq<u8>>,
    pub withdrawals: Option<Seq<WithdrawalView>>,
}

impl View for BlockBody {
    type V = BlockBodyView;

    open spec fn view(&self) -> BlockBodyView {
        BlockBodyView {
            transactions: views(self.transactions@),
            ommers: views(self.ommers@),
            withdrawals: match self.withdrawals {
                Some(ws) => Some(views(ws@)),
                None => None,
            },
        }
    }
}

impl BlockBodyView {
    /// A body whose transactions are encodable and whose counts and lengths
    /// fit their `u32` prefixes.
    pub open spec fn encodable(self) -> bool {
        &&& self.transactions.len() <= u32::MAX
        &&& forall|i: int|
            0 <= i < self.transactions.len() ==> (#[trigger] self.transactions[i]).encodable()
        &&& self.ommers.len() <= u32::MAX
        &&& forall|i: int| 0 <= i < self.ommers.len() ==> (#[trigger] self.ommers[i]).len() <= u32::MAX
        &&& self.withdrawals matches Some(ws) ==> {
            &&& ws.len() <= u32::MAX
            &&& forall|i: int| 0 <= i < ws.len() ==> (#[trigger] ws[i]).wf()
        }
    }
}

pub open spec fn tx_enc() -> spec_fn(TransactionView) -> Seq<u8> {
    |t: TransactionView| transaction_bytes(t)
}

pub open spec fn tx_parser() -> spec_fn(Seq<u8>) -> Option<(TransactionView, Seq<u8>)> {
    |s: Seq<u8>| parse_transaction(s)
}

pub open spec fn ommer_enc() -> spec_fn(Seq<u8>) -> Seq<u8> {
    |o: Seq<u8>| compact_bytes(o)
}

pub open spec fn ommer_parser() -> spec_fn(Seq<u8>) -> Option<(Seq<u8>, Seq<u8>)> {
    |s: Seq<u8>| parse_bytes(s)
}

pub open spec fn withdrawal_enc() -> spec_fn(WithdrawalView) -> Seq<u8> {
    |w: WithdrawalView| withdrawal_bytes(w)
}

pub open spec fn withdrawal_parser() -> spec_fn(Seq<u8>) -> Option<(WithdrawalView, Seq<u8>)> {
    |s: Seq<u8>| parse_withdrawal(s)
}

/// A count as a compact u32, then the items one after another.
pub open spec fn counted_bytes<T>(items: Seq<T>, enc: spec_fn(T) -> Seq<u8>) -> Seq<u8> {
    compact_uint(len_prefix(items.len())) + seq_bytes(items, enc)
}

/// Reads a compact u32 count, then that many items.
pub open spec fn parse_counted<T>(s: Seq<u8>, p: spec_fn(Seq<u8>) -> Option<(T, Seq<u8>)>) -> Option<
    (Seq<T>, Seq<u8>),
> {
    match parse_u32(s) {
        None => None,
        Some((n, r)) => parse_seq(r, n as nat, p),
    }
}

/// The withdrawals: [0] when absent; [1, count: compact u32, each
/// withdrawal] when present.
pub open spec fn withdrawals_bytes(w: Option<Seq<WithdrawalView>>) -> Seq<u8> {
    match w {
        None => seq![0u8],
        Some(ws) => seq![1u8] + counted_bytes(ws, withdrawal_enc()),
    }
}

/// Reads the withdrawals; any marker byte other than 0 announces them.
pub open spec fn parse_withdrawals(s: Seq<u8>) -> Option<(Option<Seq<WithdrawalView>>, Seq<u8>)> {
    if s.len() == 0 {
        None
    } else if s[0] == 0 {
        Some((None, s.subrange(1, s.len() as int)))
    } else {
        match parse_counted(s.subrange(1, s.len() as int), withdrawal_parser()) {
            None => None,
            Some((ws, r)) => Some((Some(ws), r)),
        }
    }
}

/// BlockBody compact encoding layout:
///   [tx_count: compact u32]
///   for each tx: [Transaction compact encoding]
///   [ommers_count: compact u32]
///   for each ommer: [its RLP bytes as compact bytes]
///   [has_withdrawals: 1 byte] 0=None, 1=Some
///   if Some: [withdrawal_count: compact u32] [Withdrawal...]
pub open spec fn body_bytes(b: BlockBodyView) -> Seq<u8> {
    counted_bytes(b.transactions, tx_enc()) + counted_bytes(b.ommers, ommer_enc())
        + withdrawals_bytes(b.withdrawals)
}

/// Reads a block body. Each ommer is read as a compact byte string and kept
/// as it is: whether those bytes form a valid RLP header is for the caller
/// that decodes them to tell.
pub open spec fn parse_body(s: Seq<u8>) -> Option<(BlockBodyView, Seq<u8>)> {
    match parse_counted(s, tx_parser()) {
        None => None,
        Some((transactions, r1)) => match parse_counted(r1, ommer_parser()) {
            None => None,
            Some((ommers, r2)) => match parse_withdrawals(r2) {
                None => None,
                Some((withdrawals, r3)) => Some(
                    (BlockBodyView { transactions, ommers, withdrawals }, r3),
                ),
            },
        },
    }
}

proof fn lemma_counted_roundtrip<T>(
    items: Seq<T>,
    enc: spec_fn(T) -> Seq<u8>,
    p: spec_fn(Seq<u8>) -> Option<(T, Seq<u8>)>,
    rest: Seq<u8>,
)
    requires
        items.len() <= u32::MAX,
        forall|i: int, r: Seq<u8>|
            0 <= i < items.len() ==> #[trigger] p(enc(items[i]) + r) == Some((items[i], r)),
    ensures
        parse_counted(counted_bytes(items, enc) + rest, p) == Some((items, rest)),
{
    let n = items.len();
    let t = seq_bytes(items, enc) + rest;
    lemma_assoc(compact_uint(len_prefix(n)), seq_bytes(items, enc), rest);
    assert(len_prefix(n) == n as u32 as nat);
    lemma_u32_roundtrip(n as u32, t);
    lemma_seq_roundtrip(items, enc, p, rest);
}

proof fn lemma_withdrawals_roundtrip(w: Option<Seq<WithdrawalView>>, rest: Seq<u8>)
    requires
        w matches Some(ws) ==> {
            &&& ws.len() <= u32::MAX
            &&& forall|i: int| 0 <= i < ws.len() ==> (#[trigger] ws[i]).wf()
        },
    ensures
        parse_withdrawals(withdrawals_bytes(w) + rest) == Some((w, rest)),
{
    let s = withdrawals_bytes(w) + rest;
    match w {
        None => {
            assert(s.subrange(1, s.len() as int) =~= rest);
        },
        Some(ws) => {
            assert(s.subrange(1, s.len() as int) =~= counted_bytes(ws, withdrawal_enc()) + rest);
            assert forall|i: int, r: Seq<u8>| 0 <= i < ws.len() implies #[trigger] (
            withdrawal_parser())((withdrawal_enc())(ws[i]) + r) == Some((ws[i], r)) by {
                lemma_withdrawal_view_roundtrip(ws[i], r);
            }
            lemma_counted_roundtrip(ws, withdrawal_enc(), withdrawal_parser(), rest);
        },
    }
}

/// A block body reads back from its encoding, leaving the bytes after it.
pub proof fn lemma_body_view_roundtrip(b: BlockBodyView, rest: Seq<u8>)
    requires
        b.encodable(),
    ensures
        parse_body(body_bytes(b) + rest) == Some((b, rest)),
{
    let t2 = withdrawals_bytes(b.withdrawals) + rest;
    let t1 = counted_bytes(b.ommers, ommer_enc()) + t2;
    lemma_assoc(
        counted_bytes(b.transactions, tx_enc()) + counted_bytes(b.ommers, ommer_enc()),
        withdrawals_bytes(b.withdrawals),
        rest,
    );
    lemma_assoc(counted_bytes(b.transactions, tx_enc()), counted_bytes(b.ommers, ommer_enc()), t2);
    assert forall|i: int, r: Seq<u8>| 0 <= i < b.transactions.len() implies #[trigger] (tx_parser())(
        (tx_enc())(b.transactions[i]) + r,
    ) == Some((b.transactions[i], r)) by {
        lemma_transaction_view_roundtrip(b.transactions[i], r);
    }
    lemma_counted_roundtrip(b.transactions, tx_enc(), tx_parser(), t1);
    assert forall|i: int, r: Seq<u8>| 0 <= i < b.ommers.len() implies #[trigger] (ommer_parser())(
        (ommer_enc())(b.ommers[i]) + r,
    ) == Some((b.ommers[i], r)) by {
        lemma_bytes_roundtrip(b.ommers[i], r);
    }
    lemma_counted_roundtrip(b.ommers, ommer_enc(), ommer_parser(), t2);
    lemma_withdrawals_roundtrip(b.withdrawals, rest);
}

/// Decoding the encoding of a block body gives the same body, and the bytes
/// after it are left as they were, whenever its transactions are encodable
/// and its counts and lengths fit their `u32` prefixes.
pub proof fn lemma_body_roundtrip(b: BlockBody, rest: Seq<u8>)
    requires
        b@.encodable(),
    ensures
        BlockBody::compact_parse(b.compact_form() + rest) == Some((b@, rest)),
{
    lemma_body_view_roundtrip(b@, rest);
}

impl CompactEncode for BlockBody {
    open spec fn compact_form(&self) -> Seq<u8> {
        body_bytes(self@)
    }

    fn compact_encode(&self, buf: &mut Vec<u8>) {
        let ghost b = self@;
        encode_u32(len_as_u32(self.transactions.len()), buf);
        let ghost start = buf@;
        let mut i: usize = 0;
        while i < self.transactions.len()
            invariant
                i <= self.transactions.len(),
                b == self@,
                buf@ == start + seq_bytes(b.transactions.take(i as int), tx_enc()),
            decreases self.transactions.len() - i,
        {
            self.transactions[i].compact_encode(buf);
            proof {
                lemma_take_push(b.transactions, i as int);
                lemma_seq_bytes_push(b.transactions.take(i as int), b.transactions[i as int], tx_enc());
            }
            i = i + 1;
        }
        assert(b.transactions.take(i as int) =~= b.transactions);
        let ghost after_txs = buf@;
        assert(after_txs =~= old(buf)@ + counted_bytes(b.transactions, tx_enc()));

        encode_u32(len_as_u32(self.ommers.len()), buf);
        let ghost start = buf@;
        let mut i: usize = 0;
        while i < self.ommers.len()
            invariant
                i <= self.ommers.len(),
                b == self@,
                buf@ == start + seq_bytes(b.ommers.take(i as int), ommer_enc()),
            decreases self.ommers.len() - i,
        {
            encode_bytes(self.ommers[i].as_slice(), buf);
            proof {
                lemma_take_push(b.ommers, i as int);
                lemma_seq_bytes_push(b.ommers.take(i as int), b.ommers[i as int], ommer_enc());
            }
            i = i + 1;
        }
        assert(b.ommers.take(i as int) =~= b.ommers);
        let ghost after_ommers = buf@;
        assert(after_ommers =~= after_txs + counted_bytes(b.ommers, ommer_enc()));

        match &self.withdrawals {
            None => buf.push(0),
            Some(withdrawals) => {
                buf.push(1);
                encode_u32(len_as_u32(withdrawals.len()), buf);
                let ghost ws = views(withdrawals@);
                let ghost start = buf@;
                let mut i: usize = 0;
                while i < withdrawals.len()
                    invariant
                        i <= withdrawals.len(),
                        ws == views(withdrawals@),
                        buf@ == start + seq_bytes(ws.take(i as int), withdrawal_enc()),
                    decreases withdrawals.len() - i,
                {
                    withdrawals[i].compact_encode(buf);
                    proof {
                        lemma_take_push(ws, i as int);
                        lemma_seq_bytes_push(ws.take(i as int), ws[i as int], withdrawal_enc());
                    }
                    i = i + 1;
                }
                assert(ws.take(i as int) =~= ws);
            },
        }
        assert(buf@ =~= after_ommers + withdrawals_bytes(b.withdrawals));
        assert(buf@ =~= old(buf)@ + body_bytes(b));
    }
}

impl CompactDecode for BlockBody {
    open spec fn compact_parse(buf: Seq<u8>) -> Option<(BlockBodyView, Seq<u8>)> {
        parse_body(buf)
    }

    #[verifier::loop_isolation(false)]
    fn compact_decode(buf: &[u8]) -> (res: Result<(Self, &[u8]), StoreError>) {
        let (tx_count, rest) = decode_u32(buf)?;
        let ghost txs_start = rest@;
        let mut rest: &[u8] = rest;
        let mut transactions: Vec<Transaction> = Vec::new();
        let mut i: u32 = 0;
        while i < tx_count
            invariant
                i <= tx_count,
                parse_seq(txs_start, i as nat, tx_parser()) == Some((views(transactions@), rest@)),
            decreases tx_count - i,
        {
            let (tx, r) = match Transaction::compact_decode(rest) {
                Ok(x) => x,
                Err(e) => {
                    proof {
                        assert((tx_parser())(rest@) is None);
                        assert(parse_seq(txs_start, (i + 1) as nat, tx_parser()) is None);
                        lemma_parse_seq_fails(txs_start, (i + 1) as nat, tx_count as nat, tx_parser());
                    }
                    return Err(e);
                },
            };
            let ghost before = transactions@;
            transactions.push(tx);
            proof {
                lemma_views_push(before, transactions@.last());
                assert(before.push(transactions@.last()) =~= transactions@);
            }
            rest = r;
            i = i + 1;
        }

        let (ommer_count, r) = decode_u32(rest)?;
        let ghost ommers_start = r@;
        rest = r;
        let mut ommers: Vec<Vec<u8>> = Vec::new();
        let mut i: u32 = 0;
        while i < ommer_count
            invariant
                i <= ommer_count,
                parse_seq(ommers_start, i as nat, ommer_parser()) == Some((views(ommers@), rest@)),
            decreases ommer_count - i,
        {
            let (rlp_bytes, r) = match decode_bytes(rest) {
                Ok(x) => x,
                Err(e) => {
                    proof {
                        assert((ommer_parser())(rest@) is None);
                        assert(parse_seq(ommers_start, (i + 1) as nat, ommer_parser()) is None);
                        lemma_parse_seq_fails(ommers_start, (i + 1) as nat, ommer_count as nat, ommer_parser());
                    }
                    return Err(e);
                },
            };
            let ghost before = ommers@;
            ommers.push(slice_to_vec(rlp_bytes));
            proof {
                lemma_views_push(before, ommers@.last());
                assert(before.push(ommers@.last()) =~= ommers@);
            }
            rest = r;
            i = i + 1;
        }

        if rest.len() == 0 {
            return Err(StoreError::DecodeError);
        }
        let has_withdrawals = rest[0];
        let (_, r) = rest.split_at(1);
        if has_withdrawals == 0 {
            return Ok((BlockBody { transactions, ommers, withdrawals: None }, r));
        }
        let (w_count, r) = decode_u32(r)?;
        let ghost ws_start = r@;
        rest = r;
        let mut withdrawals: Vec<Withdrawal> = Vec::new();
        let mut i: u32 = 0;
        while i < w_count
            invariant
                i <= w_count,
                parse_seq(ws_start, i as nat, withdrawal_parser()) == Some((views(withdrawals@), rest@)),
            decreases w_count - i,
        {
            let (w, r) = match Withdrawal::compact_decode(rest) {
                Ok(x) => x,
                Err(e) => {
                    proof {
                        assert((withdrawal_parser())(rest@) is None);
                        assert(parse_seq(ws_start, (i + 1) as nat, withdrawal_parser()) is None);
                        lemma_parse_seq_fails(ws_start, (i + 1) as nat, w_count as nat, withdrawal_parser());
                    }
                    return Err(e);
                },
            };
            let ghost before = withdrawals@;
            withdrawals.push(w);
            proof {
                lemma_views_push(before, withdrawals@.last());
                assert(before.push(withdrawals@.last()) =~= withdrawals@);
            }
            rest = r;
            i = i + 1;
        }
        Ok((BlockBody { transactions, ommers, withdrawals: Some(withdrawals) }, rest))
    }
}

/// A block body is written as the transaction count and each transaction
/// exactly as a transaction on its own is written; the ommer count and each
/// ommer as a compact byte string; then 0 when there are no withdrawals, or
/// 1, their count and each withdrawal exactly as a withdrawal on its own is
/// written.
pub proof fn lemma_body_layout(b: BlockBodyView)
    ensures
        body_bytes(b) == compact_uint(len_prefix(b.transactions.len())) + seq_bytes(
            b.transactions,
            |x: TransactionView| transaction_bytes(x),
        ) + compact_uint(len_prefix(b.ommers.len())) + seq_bytes(
            b.ommers,
            |x: Seq<u8>| compact_bytes(x),
        ) + (match b.withdrawals {
            None => seq![0u8],
            Some(ws) => seq![1u8] + compact_uint(len_prefix(ws.len())) + seq_bytes(
                ws,
                |x: WithdrawalView| withdrawal_bytes(x),
            ),
        }),
{
    assert(tx_enc() =~= (|x: TransactionView| transaction_bytes(x)));
    assert(ommer_enc() =~= (|x: Seq<u8>| compact_bytes(x)));
    assert(withdrawal_enc() =~= (|x: WithdrawalView| withdrawal_bytes(x)));
}

} // verus!
