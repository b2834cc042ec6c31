//! The kinds of transaction, and the byte that stands for each.
use vstd::prelude::*;

verus! {

/// The kind of a transaction (EIP-2718 type byte).
#[derive(Debug, Clone, Copy, PartialEq, Eq, Structural)]
pub enum TxType {
    Legacy,
    EIP2930,
    EIP1559,
    EIP4844,
    EIP7702,
    FeeToken,
    Privileged,
}

impl TxType {
    /// The type byte of each kind.
    pub open spec fn byte(self) -> u8 {
        match self {
            TxType::Legacy => 0x00,
            TxType::EIP2930 => 0x01,
            TxType::EIP1559 => 0x02,
            TxType::EIP4844 => 0x03,
            TxType::EIP7702 => 0x04,
            TxType::FeeToken => 0x7d,
            TxType::Privileged => 0x7e,
        }
    }

    /// The kind whose type byte is `b`, if there is one.
    pub open spec fn from_byte(b: u8) -> Option<TxType> {
        if b == 0x00 {
            Some(TxType::Legacy)
        } else if b == 0x01 {
            Some(TxType::EIP2930)
        } else if b == 0x02 {
            Some(TxType::EIP1559)
        } else if b == 0x03 {
            Some(TxType::EIP4844)
        } else if b == 0x04 {
            Some(TxType::EIP7702)
        } else if b == 0x7d {
            Some(TxType::FeeToken)
        } else if b == 0x7e {
            Some(TxType::Privileged)
        } else {
            None
        }
    }

    pub fn to_u8(&self) -> (b: u8)
        ensures
            b == self.byte(),
    {
        match self {
            TxType::Legacy => 0x00,
            TxType::EIP2930 => 0x01,
            TxType::EIP1559 => 0x02,
            TxType::EIP4844 => 0x03,
            TxType::EIP7702 => 0x04,
            TxType::FeeToken => 0x7d,
            TxType::Privileged => 0x7e,
        }
    }

    pub fn from_u8(value: u8) -> (t: Option<TxType>)
        ensures
            t == TxType::from_byte(value),
    {
        match value {
            0x00 => Some(TxType::Legacy),
            0x01 => Some(TxType::EIP2930),
            0x02 => Some(TxType::EIP1559),
            0x03 => Some(TxType::EIP4844),
            0x04 => Some(TxType::EIP7702),
            0x7d => Some(TxType::FeeToken),
            0x7e => Some(TxType::Privileged),
            _ => None,
        }
    }
}

/// Each kind is read back from its own type byte.
pub proof fn lemma_tx_type_roundtrip(t: TxType)
    ensures
        TxType::from_byte(t.byte()) == Some(t),
{
}

} // verus!
