# storage_codecs

A compact binary encoding for values kept in a key-value store: receipts,
block headers, block bodies, transactions, withdrawals and transaction
locations. Integers are written as a length byte followed by their
significant big-endian bytes, byte strings and lists carry a compact `u32`
length or count, and optional header fields are announced by a flags byte.

The library is written in Verus. Each decoder's contract is a parser over
byte sequences (`parse_*` in each module), each encoder's contract is the
byte sequence it appends (`*_bytes`), and each module proves that decoding
an encoding gives the value back together with the bytes that followed it
(`lemma_*_roundtrip`).

Layout of `src/`:

- `primitives.rs`: compact integers (`u64`, `u32`, 256-bit) and byte strings.
- `fixed.rs`: fixed-size values (addresses, hashes, the bloom filter, `U256`).
- `lists.rs`, `optional.rs`: lists of items and flag-announced optional fields.
- `codec.rs`: the `CompactEncode` and `CompactDecode` traits.
- `receipt.rs`, `header.rs`, `transaction.rs`, `tx_fields.rs`,
  `withdrawal.rs`, `body.rs`, `tx_location.rs`, `tx_type.rs`: the stored values.
- `shared_bytes.rs`: the contract assumed of the `bytes` crate's buffers.

Block bodies hold each ommer header in its RLP encoding; turning headers
into RLP and back is left to the caller.
