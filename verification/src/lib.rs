//! Compact binary encoding of stored blockchain values.
//!
//! Integers drop their leading zero bytes behind a one-byte length, byte
//! strings carry a compact length prefix, and optional fields are announced
//! by a bit in a flags byte. Every decoder is specified by a parser over byte
//! sequences, and the library proves that decoding an encoding gives the
//! value back, together with whatever bytes followed it.

pub mod error;
pub mod fixed;
pub mod primitives;
pub mod shared_bytes;
pub mod codec;
pub mod lists;
pub mod optional;

pub mod tx_type;
pub mod tx_fields;
pub mod withdrawal;
pub mod receipt;
pub mod tx_location;
pub mod header;
pub mod transaction;
pub mod body;
