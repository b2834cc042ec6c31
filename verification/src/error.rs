use vstd::prelude::*;

verus! {

/// Why a stored value could not be read back.
#[derive(Debug, Clone, Copy, PartialEq, Eq, Structural)]
pub enum StoreError {
    /// The bytes are not a valid compact encoding of the requested value.
    DecodeError,
}

} // verus!
