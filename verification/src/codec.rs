//! The two traits through which stored values are written and read.
use vstd::prelude::*;

use crate::error::StoreError;

verus! {

/// A value with a compact binary encoding.
pub trait CompactEncode: View {
    /// The bytes that encode this value.
    spec fn compact_form(&self) -> Seq<u8>;

    /// Appends the encoding of this value to `buf`.
    fn compact_encode(&self, buf: &mut Vec<u8>)
        ensures
            final(buf)@ == old(buf)@ + self.compact_form(),
    ;

    /// The encoding of this value in a buffer of its own.
    fn to_compact_vec(&self) -> (out: Vec<u8>)
        ensures
            out@ == self.compact_form(),
    {
        let mut buf = Vec::new();
        self.compact_encode(&mut buf);
        assert(buf@ =~= self.compact_form());
        buf
    }
}

/// A value that can be read back from its compact binary encoding.
pub trait CompactDecode: Sized + View {
    /// What decoding `buf` gives: the value read from its front and the
    /// bytes after it, or `None` where the bytes hold no such value.
    spec fn compact_parse(buf: Seq<u8>) -> Option<(Self::V, Seq<u8>)>;

    /// Reads a value from the front of `buf` and returns it with the bytes
    /// after it.
    fn compact_decode(buf: &[u8]) -> (res: Result<(Self, &[u8]), StoreError>)
        ensures
            res is Ok <==> Self::compact_parse(buf@) is Some,
            res matches Ok((v, rest)) ==> Self::compact_parse(buf@) == Some((v@, rest@)),
    ;

    /// Reads a value from the front of `buf` and drops whatever follows it.
    fn from_compact_vec(buf: &[u8]) -> (res: Result<Self, StoreError>)
        ensures
            res is Ok <==> Self::compact_parse(buf@) is Some,
            res matches Ok(v) ==> Self::compact_parse(buf@) matches Some((w, _)) && w == v@,
    {
        let (val, _) = Self::compact_decode(buf)?;
        Ok(val)
    }
}

} // verus!
