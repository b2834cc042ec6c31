use storage_codecs::body::BlockBody;
use storage_codecs::codec::{CompactDecode, CompactEncode};
use storage_codecs::fixed::{Address, Bloom, H256, U256};
use storage_codecs::header::BlockHeader;
use storage_codecs::primitives::{decode_u64, encode_u64};
use storage_codecs::receipt::{Log, Receipt};
use storage_codecs::transaction::{
    EIP1559Transaction, EIP2930Transaction, EIP4844Transaction, EIP7702Transaction,
    LegacyTransaction, Transaction,
};
use storage_codecs::tx_fields::{AuthorizationTuple, TxKind};
use storage_codecs::tx_location::{decode_tx_location, encode_tx_location};
use storage_codecs::tx_type::TxType;
use storage_codecs::withdrawal::Withdrawal;

fn h256(v: u64) -> H256 {
    let mut b = [0u8; 32];
    b[24..].copy_from_slice(&v.to_be_bytes());
    H256(b)
}

fn address(v: u64) -> Address {
    let mut b = [0u8; 20];
    b[12..].copy_from_slice(&v.to_be_bytes());
    Address(b)
}

fn u256(v: u64) -> U256 {
    let mut b = [0u8; 32];
    b[24..].copy_from_slice(&v.to_be_bytes());
    U256(b)
}

fn test_receipt(tx_type: TxType, log_count: usize, topic_count: usize) -> Receipt {
    let logs = (0..log_count)
        .map(|i| Log {
            address: address(i as u64 + 1),
            topics: (0..topic_count).map(|j| h256(j as u64 + 1)).collect(),
            data: bytes::Bytes::from(vec![0xAB; i * 10]),
        })
        .collect();
    Receipt {
        tx_type,
        succeeded: true,
        cumulative_gas_used: 21000 + log_count as u64 * 1000,
        logs,
    }
}

#[test]
fn receipt_roundtrip_no_logs() {
    let r = Receipt {
        tx_type: TxType::Legacy,
        succeeded: true,
        cumulative_gas_used: 21000,
        logs: vec![],
    };
    let encoded = r.to_compact_vec();
    let decoded = Receipt::from_compact_vec(&encoded).unwrap();
    assert_eq!(r, decoded);
}

#[test]
fn receipt_roundtrip_with_logs() {
    let r = test_receipt(TxType::EIP1559, 3, 4);
    let encoded = r.to_compact_vec();
    let decoded = Receipt::from_compact_vec(&encoded).unwrap();
    assert_eq!(r, decoded);
}

#[test]
fn receipt_roundtrip_failed_tx() {
    let r = Receipt {
        tx_type: TxType::EIP4844,
        succeeded: false,
        cumulative_gas_used: 100_000,
        logs: vec![],
    };
    let encoded = r.to_compact_vec();
    let decoded = Receipt::from_compact_vec(&encoded).unwrap();
    assert_eq!(r, decoded);
}

#[test]
fn receipt_roundtrip_eip2930() {
    let r = test_receipt(TxType::EIP2930, 1, 2);
    let encoded = r.to_compact_vec();
    let decoded = Receipt::from_compact_vec(&encoded).unwrap();
    assert_eq!(r, decoded);
}

#[test]
fn u64_roundtrip_zero() {
    let mut buf = Vec::new();
    encode_u64(0, &mut buf);
    let (val, rest) = decode_u64(&buf).unwrap();
    assert_eq!(val, 0);
    assert!(rest.is_empty());
    assert_eq!(buf.len(), 1); // just the length byte
}

#[test]
fn u64_roundtrip_max() {
    let mut buf = Vec::new();
    encode_u64(u64::MAX, &mut buf);
    let (val, rest) = decode_u64(&buf).unwrap();
    assert_eq!(val, u64::MAX);
    assert!(rest.is_empty());
}

#[test]
fn u64_roundtrip_small() {
    let mut buf = Vec::new();
    encode_u64(1, &mut buf);
    assert_eq!(buf.len(), 2); // len=1 + 1 byte
    let (val, _) = decode_u64(&buf).unwrap();
    assert_eq!(val, 1);
}

#[test]
fn tx_location_roundtrip() {
    let bn = 12_000_000u64;
    let bh = h256(0xdeadbeef);
    let idx = 42u64;

    let encoded = encode_tx_location(bn, bh, idx);
    let (bn2, bh2, idx2) = decode_tx_location(&encoded).unwrap();
    assert_eq!(bn, bn2);
    assert_eq!(bh, bh2);
    assert_eq!(idx, idx2);
}

fn base_header() -> BlockHeader {
    BlockHeader {
        parent_hash: h256(1),
        ommers_hash: h256(2),
        coinbase: address(3),
        state_root: h256(4),
        transactions_root: h256(5),
        receipts_root: h256(6),
        logs_bloom: Bloom([0u8; 256]),
        difficulty: U256::zero(),
        number: 100,
        gas_limit: 30_000_000,
        gas_used: 21_000,
        timestamp: 1_700_000_000,
        extra_data: bytes::Bytes::new(),
        prev_randao: h256(7),
        nonce: 0,
        base_fee_per_gas: None,
        withdrawals_root: None,
        blob_gas_used: None,
        excess_blob_gas: None,
        parent_beacon_block_root: None,
        requests_hash: None,
        block_access_list_hash: None,
        slot_number: None,
    }
}

#[test]
fn block_header_roundtrip_pre_shanghai() {
    let h = base_header();
    let encoded = h.to_compact_vec();
    let decoded = BlockHeader::from_compact_vec(&encoded).unwrap();
    assert_eq!(h, decoded);
}

#[test]
fn block_header_roundtrip_post_shanghai() {
    let mut h = base_header();
    h.base_fee_per_gas = Some(1_000_000_000);
    h.withdrawals_root = Some(h256(0xabcd));
    let encoded = h.to_compact_vec();
    let decoded = BlockHeader::from_compact_vec(&encoded).unwrap();
    assert_eq!(h, decoded);
}

#[test]
fn block_header_roundtrip_post_cancun() {
    let mut h = base_header();
    h.base_fee_per_gas = Some(1_000_000_000);
    h.withdrawals_root = Some(h256(0xabcd));
    h.blob_gas_used = Some(131_072);
    h.excess_blob_gas = Some(0);
    h.parent_beacon_block_root = Some(h256(0xbeef));
    let encoded = h.to_compact_vec();
    let decoded = BlockHeader::from_compact_vec(&encoded).unwrap();
    assert_eq!(h, decoded);
}

#[test]
fn block_header_roundtrip_post_prague() {
    let mut h = base_header();
    h.base_fee_per_gas = Some(1_000_000_000);
    h.withdrawals_root = Some(h256(0xabcd));
    h.blob_gas_used = Some(131_072);
    h.excess_blob_gas = Some(262_144);
    h.parent_beacon_block_root = Some(h256(0xbeef));
    h.requests_hash = Some(h256(0xdead));
    let encoded = h.to_compact_vec();
    let decoded = BlockHeader::from_compact_vec(&encoded).unwrap();
    assert_eq!(h, decoded);
}

#[test]
fn block_header_roundtrip_post_amsterdam() {
    let mut h = base_header();
    h.base_fee_per_gas = Some(1_000_000_000);
    h.withdrawals_root = Some(h256(0xabcd));
    h.blob_gas_used = Some(131_072);
    h.excess_blob_gas = Some(262_144);
    h.parent_beacon_block_root = Some(h256(0xbeef));
    h.requests_hash = Some(h256(0xdead));
    h.block_access_list_hash = Some(h256(0xcafe));
    h.slot_number = Some(12345);
    let encoded = h.to_compact_vec();
    let decoded = BlockHeader::from_compact_vec(&encoded).unwrap();
    assert_eq!(h, decoded);
}

#[test]
fn block_header_roundtrip_with_extra_data() {
    let mut h = base_header();
    h.extra_data = bytes::Bytes::from(vec![0x01, 0x02, 0x03, 0xAB, 0xCD]);
    h.difficulty = u256(12345678u64);
    let encoded = h.to_compact_vec();
    let decoded = BlockHeader::from_compact_vec(&encoded).unwrap();
    assert_eq!(h, decoded);
}

fn make_legacy_tx() -> Transaction {
    Transaction::LegacyTransaction(LegacyTransaction {
        nonce: 1,
        gas_price: u256(20_000_000_000u64),
        gas: 21000,
        to: TxKind::Call(address(0xdeadbeef)),
        value: u256(1_000_000_000u64),
        data: bytes::Bytes::from(vec![0x01, 0x02, 0x03]),
        v: u256(27u64),
        r: u256(0x1234u64),
        s: u256(0x5678u64),
    })
}

fn make_eip1559_tx() -> Transaction {
    Transaction::EIP1559Transaction(EIP1559Transaction {
        chain_id: 1,
        nonce: 42,
        max_priority_fee_per_gas: 1_000_000_000,
        max_fee_per_gas: 50_000_000_000,
        gas_limit: 100_000,
        to: TxKind::Call(address(0xcafe)),
        value: u256(0u64),
        data: bytes::Bytes::from(vec![0xde, 0xad]),
        access_list: vec![],
        signature_y_parity: false,
        signature_r: u256(0x111u64),
        signature_s: u256(0x222u64),
    })
}

fn make_eip1559_create_tx() -> Transaction {
    Transaction::EIP1559Transaction(EIP1559Transaction {
        chain_id: 1,
        nonce: 0,
        max_priority_fee_per_gas: 0,
        max_fee_per_gas: 0,
        gas_limit: 1_000_000,
        to: TxKind::Create,
        value: U256::zero(),
        data: bytes::Bytes::from(vec![0x60, 0x80, 0x60, 0x40]),
        access_list: vec![],
        signature_y_parity: true,
        signature_r: u256(0xaau64),
        signature_s: u256(0xbbu64),
    })
}

#[test]
fn tx_legacy_roundtrip() {
    let tx = make_legacy_tx();
    let encoded = tx.to_compact_vec();
    let decoded = Transaction::from_compact_vec(&encoded).unwrap();
    assert_eq!(tx, decoded);
}

#[test]
fn tx_eip1559_roundtrip() {
    let tx = make_eip1559_tx();
    let encoded = tx.to_compact_vec();
    let decoded = Transaction::from_compact_vec(&encoded).unwrap();
    assert_eq!(tx, decoded);
}

#[test]
fn tx_eip1559_create_roundtrip() {
    let tx = make_eip1559_create_tx();
    let encoded = tx.to_compact_vec();
    let decoded = Transaction::from_compact_vec(&encoded).unwrap();
    assert_eq!(tx, decoded);
}

#[test]
fn tx_eip2930_roundtrip() {
    let tx = Transaction::EIP2930Transaction(EIP2930Transaction {
        chain_id: 1,
        nonce: 5,
        gas_price: u256(10_000_000_000u64),
        gas_limit: 50_000,
        to: TxKind::Call(address(0x1234)),
        value: u256(100u64),
        data: bytes::Bytes::new(),
        access_list: vec![(address(0xabc), vec![h256(0x1), h256(0x2)])],
        signature_y_parity: true,
        signature_r: u256(0x333u64),
        signature_s: u256(0x444u64),
    });
    let encoded = tx.to_compact_vec();
    let decoded = Transaction::from_compact_vec(&encoded).unwrap();
    assert_eq!(tx, decoded);
}

#[test]
fn tx_eip4844_roundtrip() {
    let tx = Transaction::EIP4844Transaction(EIP4844Transaction {
        chain_id: 1,
        nonce: 7,
        max_priority_fee_per_gas: 1_000_000,
        max_fee_per_gas: 2_000_000,
        gas: 200_000,
        to: address(0x9999),
        value: U256::zero(),
        data: bytes::Bytes::new(),
        access_list: vec![],
        max_fee_per_blob_gas: u256(1_000_000u64),
        blob_versioned_hashes: vec![h256(0xb1), h256(0xb2)],
        signature_y_parity: false,
        signature_r: u256(0x555u64),
        signature_s: u256(0x666u64),
    });
    let encoded = tx.to_compact_vec();
    let decoded = Transaction::from_compact_vec(&encoded).unwrap();
    assert_eq!(tx, decoded);
}

#[test]
fn tx_eip7702_roundtrip() {
    let tx = Transaction::EIP7702Transaction(EIP7702Transaction {
        chain_id: 1,
        nonce: 3,
        max_priority_fee_per_gas: 500_000,
        max_fee_per_gas: 1_500_000,
        gas_limit: 80_000,
        to: address(0x7777),
        value: U256::zero(),
        data: bytes::Bytes::from(vec![0xaa]),
        access_list: vec![],
        authorization_list: vec![AuthorizationTuple {
            chain_id: u256(1u64),
            address: address(0x8888),
            nonce: 1,
            y_parity: U256::zero(),
            r_signature: u256(0x999u64),
            s_signature: u256(0xAAAu64),
        }],
        signature_y_parity: true,
        signature_r: u256(0xBBBu64),
        signature_s: u256(0xCCCu64),
    });
    let encoded = tx.to_compact_vec();
    let decoded = Transaction::from_compact_vec(&encoded).unwrap();
    assert_eq!(tx, decoded);
}

#[test]
fn block_body_empty_roundtrip() {
    let body = BlockBody {
        transactions: vec![],
        ommers: vec![],
        withdrawals: Some(vec![]),
    };
    let encoded = body.to_compact_vec();
    let decoded = BlockBody::from_compact_vec(&encoded).unwrap();
    assert_eq!(body, decoded);
}

#[test]
fn block_body_no_withdrawals_roundtrip() {
    let body = BlockBody {
        transactions: vec![make_legacy_tx(), make_eip1559_tx()],
        ommers: vec![],
        withdrawals: None,
    };
    let encoded = body.to_compact_vec();
    let decoded = BlockBody::from_compact_vec(&encoded).unwrap();
    assert_eq!(body, decoded);
}

#[test]
fn block_body_with_withdrawals_roundtrip() {
    let body = BlockBody {
        transactions: vec![make_eip1559_tx(), make_legacy_tx(), make_eip1559_create_tx()],
        ommers: vec![],
        withdrawals: Some(vec![
            Withdrawal {
                index: 0,
                validator_index: 100,
                address: address(0x1111),
                amount: 32_000_000_000,
            },
            Withdrawal {
                index: 1,
                validator_index: 200,
                address: address(0x2222),
                amount: 16_000_000_000,
            },
        ]),
    };
    let encoded = body.to_compact_vec();
    let decoded = BlockBody::from_compact_vec(&encoded).unwrap();
    assert_eq!(body, decoded);
}

#[test]
fn withdrawal_roundtrip() {
    let w = Withdrawal {
        index: 42,
        validator_index: 999,
        address: address(0xfeed),
        amount: 1_000_000_000,
    };
    let encoded = w.to_compact_vec();
    let decoded = Withdrawal::from_compact_vec(&encoded).unwrap();
    assert_eq!(w, decoded);
}
