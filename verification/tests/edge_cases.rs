use storage_codecs::body::BlockBody;
use storage_codecs::codec::{CompactDecode, CompactEncode};
use storage_codecs::error::StoreError;
use storage_codecs::fixed::{Address, H256, U256};
use storage_codecs::primitives::{
    decode_bytes, decode_u256, decode_u32, decode_u64, encode_bytes, encode_u256, encode_u32,
    encode_u64,
};
use storage_codecs::receipt::{Log, Receipt};
use storage_codecs::transaction::{PrivilegedL2Transaction, Transaction, FeeTokenTransaction};
use storage_codecs::tx_fields::TxKind;
use storage_codecs::tx_location::{decode_tx_location, encode_tx_location};
use storage_codecs::tx_type::TxType;
use storage_codecs::withdrawal::Withdrawal;

fn u256(v: u64) -> U256 {
    let mut b = [0u8; 32];
    b[24..].copy_from_slice(&v.to_be_bytes());
    U256(b)
}

#[test]
fn compact_u64_exact_bytes() {
    let mut buf = Vec::new();
    encode_u64(0x5208, &mut buf);
    assert_eq!(buf, vec![2, 0x52, 0x08]);
    let mut buf = Vec::new();
    encode_u64(u64::MAX, &mut buf);
    assert_eq!(buf, vec![8, 0xff, 0xff, 0xff, 0xff, 0xff, 0xff, 0xff, 0xff]);
    let mut buf = vec![7];
    encode_u64(0x0100, &mut buf);
    assert_eq!(buf, vec![7, 2, 0x01, 0x00]);
}

#[test]
fn compact_u32_exact_bytes() {
    let mut buf = Vec::new();
    encode_u32(0x0100_0000, &mut buf);
    assert_eq!(buf, vec![4, 1, 0, 0, 0]);
    let mut buf = Vec::new();
    encode_u32(0, &mut buf);
    assert_eq!(buf, vec![0]);
}

#[test]
fn decode_u64_errors() {
    assert_eq!(decode_u64(&[]), Err(StoreError::DecodeError));
    assert_eq!(decode_u64(&[9, 1, 1, 1, 1, 1, 1, 1, 1, 1]), Err(StoreError::DecodeError));
    assert_eq!(decode_u64(&[2, 0x01]), Err(StoreError::DecodeError));
}

#[test]
fn decode_u64_keeps_rest_and_accepts_leading_zero() {
    let (v, rest) = decode_u64(&[2, 0x00, 0x05, 0xaa, 0xbb]).unwrap();
    assert_eq!(v, 5);
    assert_eq!(rest, &[0xaa, 0xbb]);
}

#[test]
fn decode_u32_errors() {
    assert_eq!(decode_u32(&[5, 0, 0, 0, 0, 1]), Err(StoreError::DecodeError));
    assert_eq!(decode_u32(&[]), Err(StoreError::DecodeError));
    let (v, rest) = decode_u32(&[4, 0xde, 0xad, 0xbe, 0xef]).unwrap();
    assert_eq!(v, 0xdead_beef);
    assert!(rest.is_empty());
}

#[test]
fn bytes_exact_and_errors() {
    let mut buf = Vec::new();
    encode_bytes(&[0xa, 0xb, 0xc], &mut buf);
    assert_eq!(buf, vec![1, 3, 0xa, 0xb, 0xc]);
    let (data, rest) = decode_bytes(&[1, 3, 0xa, 0xb, 0xc, 0xd]).unwrap();
    assert_eq!(data, &[0xa, 0xb, 0xc]);
    assert_eq!(rest, &[0xd]);
    assert_eq!(decode_bytes(&[1, 5, 0xa]), Err(StoreError::DecodeError));
    let (data, rest) = decode_bytes(&[0]).unwrap();
    assert!(data.is_empty() && rest.is_empty());
}

#[test]
fn u256_exact_bytes_and_roundtrip() {
    let mut buf = Vec::new();
    encode_u256(&U256::zero(), &mut buf);
    assert_eq!(buf, vec![0]);
    let mut buf = Vec::new();
    encode_u256(&u256(0x1234), &mut buf);
    assert_eq!(buf, vec![2, 0x12, 0x34]);
    let max = U256([0xff; 32]);
    let mut buf = Vec::new();
    encode_u256(&max, &mut buf);
    assert_eq!(buf.len(), 33);
    assert_eq!(buf[0], 32);
    let (v, rest) = decode_u256(&buf).unwrap();
    assert_eq!(v, max);
    assert!(rest.is_empty());
    let mut long = vec![33];
    long.extend_from_slice(&[1; 33]);
    assert_eq!(decode_u256(&long), Err(StoreError::DecodeError));
}

#[test]
fn u256_helpers() {
    assert!(U256::zero().is_zero());
    assert!(!u256(1).is_zero());
    let v = U256::from_big_endian(&[0x12, 0x34]);
    assert_eq!(v, u256(0x1234));
    assert_eq!(v.to_big_endian()[30..], [0x12, 0x34]);
}

#[test]
fn fixed_byte_types() {
    let bytes: Vec<u8> = (0..20).collect();
    let a = Address::from_slice(&bytes);
    assert_eq!(a.as_bytes(), bytes.as_slice());
    let bytes: Vec<u8> = (0..32).collect();
    let h = H256::from_slice(&bytes);
    assert_eq!(h.as_bytes(), bytes.as_slice());
}

#[test]
fn tx_type_bytes() {
    let all = [
        (TxType::Legacy, 0x00),
        (TxType::EIP2930, 0x01),
        (TxType::EIP1559, 0x02),
        (TxType::EIP4844, 0x03),
        (TxType::EIP7702, 0x04),
        (TxType::FeeToken, 0x7d),
        (TxType::Privileged, 0x7e),
    ];
    for (t, b) in all {
        assert_eq!(t.to_u8(), b);
        assert_eq!(TxType::from_u8(b), Some(t));
    }
    assert_eq!(TxType::from_u8(0x05), None);
    assert_eq!(TxType::from_u8(0x7f), None);
}

#[test]
fn receipt_exact_bytes() {
    let r = Receipt {
        tx_type: TxType::Legacy,
        succeeded: true,
        cumulative_gas_used: 21000,
        logs: vec![],
    };
    assert_eq!(r.to_compact_vec(), vec![0x00, 0x01, 2, 0x52, 0x08, 0]);
}

#[test]
fn receipt_decode_errors_and_flags() {
    assert!(Receipt::from_compact_vec(&[]).is_err());
    assert!(Receipt::from_compact_vec(&[0x05, 0x01, 0, 0]).is_err());
    assert!(Receipt::from_compact_vec(&[0x00]).is_err());
    // only bit 0 of the flags byte is read
    let r = Receipt::from_compact_vec(&[0x02, 0xff, 0, 0]).unwrap();
    assert!(r.succeeded);
    assert_eq!(r.tx_type, TxType::EIP1559);
    let r = Receipt::from_compact_vec(&[0x02, 0xfe, 0, 0]).unwrap();
    assert!(!r.succeeded);
    // a log count larger than the logs present
    assert!(Receipt::from_compact_vec(&[0x02, 0x01, 0, 1, 1]).is_err());
}

#[test]
fn receipt_log_data_survives() {
    let r = Receipt {
        tx_type: TxType::EIP7702,
        succeeded: false,
        cumulative_gas_used: 1,
        logs: vec![Log {
            address: Address([9; 20]),
            topics: vec![H256([7; 32])],
            data: bytes::Bytes::from(vec![1, 2, 3, 4, 5]),
        }],
    };
    let mut encoded = r.to_compact_vec();
    encoded.extend_from_slice(&[0xee, 0xff]);
    let (decoded, rest) = Receipt::compact_decode(&encoded).unwrap();
    assert_eq!(decoded.logs[0].data.as_ref(), &[1, 2, 3, 4, 5]);
    assert_eq!(decoded, r);
    assert_eq!(rest, &[0xee, 0xff]);
}

#[test]
fn tx_location_ignores_trailing_bytes() {
    let mut encoded = encode_tx_location(0, H256([3; 32]), 0x1_0000);
    assert_eq!(encoded.len(), 1 + 32 + 4);
    encoded.push(0x42);
    let (n, h, i) = decode_tx_location(&encoded).unwrap();
    assert_eq!((n, h, i), (0, H256([3; 32]), 0x1_0000));
    assert!(decode_tx_location(&encoded[..10]).is_err());
}

#[test]
fn transaction_rejects_bad_kind_and_type() {
    // unknown type byte
    assert!(Transaction::from_compact_vec(&[0x06]).is_err());
    // legacy with a recipient flag of 2
    let bad = vec![0x00, 1, 1, 0, 0, 2];
    assert!(Transaction::from_compact_vec(&bad).is_err());
    // legacy with a truncated call address
    let bad = vec![0x00, 1, 1, 0, 0, 1, 0xaa];
    assert!(Transaction::from_compact_vec(&bad).is_err());
}

#[test]
fn privileged_and_fee_token_roundtrip() {
    let p = Transaction::PrivilegedL2Transaction(PrivilegedL2Transaction {
        chain_id: 65536999,
        nonce: 0,
        max_priority_fee_per_gas: 0,
        max_fee_per_gas: 0,
        gas_limit: 21000,
        to: TxKind::Create,
        value: u256(5),
        data: bytes::Bytes::new(),
        access_list: vec![(Address([1; 20]), vec![])],
        from: Address([2; 20]),
    });
    let encoded = p.to_compact_vec();
    assert_eq!(encoded[0], 0x7e);
    assert_eq!(Transaction::from_compact_vec(&encoded).unwrap(), p);

    let f = Transaction::FeeTokenTransaction(FeeTokenTransaction {
        chain_id: 1,
        nonce: 2,
        max_priority_fee_per_gas: 3,
        max_fee_per_gas: 4,
        gas_limit: 5,
        to: TxKind::Call(Address([4; 20])),
        value: U256::zero(),
        data: bytes::Bytes::from(vec![0xfe]),
        access_list: vec![],
        fee_token: Address([5; 20]),
        signature_y_parity: true,
        signature_r: u256(6),
        signature_s: u256(7),
    });
    let encoded = f.to_compact_vec();
    assert_eq!(encoded[0], 0x7d);
    assert_eq!(Transaction::from_compact_vec(&encoded).unwrap(), f);
}

#[test]
fn withdrawal_exact_bytes_and_rest() {
    let w = Withdrawal { index: 1, validator_index: 0, address: Address([0xab; 20]), amount: 0x100 };
    let mut encoded = w.to_compact_vec();
    let mut expected = vec![1, 1, 0];
    expected.extend_from_slice(&[0xab; 20]);
    expected.extend_from_slice(&[2, 1, 0]);
    assert_eq!(encoded, expected);
    encoded.push(9);
    let (d, rest) = Withdrawal::compact_decode(&encoded).unwrap();
    assert_eq!(d, w);
    assert_eq!(rest, &[9]);
    assert!(Withdrawal::from_compact_vec(&encoded[..10]).is_err());
}

#[test]
fn block_body_withdrawal_marker_and_ommers() {
    // any non-zero marker announces withdrawals
    let body = BlockBody::from_compact_vec(&[0, 0, 7, 0]).unwrap();
    assert_eq!(body.withdrawals, Some(vec![]));
    let body = BlockBody::from_compact_vec(&[0, 0, 0]).unwrap();
    assert_eq!(body.withdrawals, None);
    assert!(BlockBody::from_compact_vec(&[0, 0]).is_err());

    let body = BlockBody {
        transactions: vec![],
        ommers: vec![vec![0xc0], vec![1, 2, 3]],
        withdrawals: None,
    };
    let encoded = body.to_compact_vec();
    assert_eq!(encoded, vec![0, 1, 2, 1, 1, 0xc0, 1, 3, 1, 2, 3, 0]);
    assert_eq!(BlockBody::from_compact_vec(&encoded).unwrap(), body);
}


#[test]
fn receipt_truncated_never_decodes() {
    let r = Receipt {
        tx_type: TxType::EIP1559,
        succeeded: true,
        cumulative_gas_used: 0x1234_5678,
        logs: vec![Log {
            address: Address([3; 20]),
            topics: vec![H256([4; 32]), H256([5; 32])],
            data: bytes::Bytes::from(vec![6, 7, 8]),
        }],
    };
    let encoded = r.to_compact_vec();
    for n in 0..encoded.len() {
        assert_eq!(Receipt::compact_decode(&encoded[..n]), Err(StoreError::DecodeError));
    }
    assert_eq!(Receipt::from_compact_vec(&encoded).unwrap(), r);
}
