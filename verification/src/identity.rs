//! Opaque identity handles.
//!
//! Authorities, oracles, users, mints and custody accounts are referred to by
//! a 32-byte handle. The engine never interprets the bytes; it only stores
//! handles and compares them for equality at the access-control boundary.

use vstd::prelude::*;

verus! {

/// Width of an identity handle in bytes.
pub const IDENTITY_LEN: usize = 32;

/// A capability reference: who may act, or which account is meant.
#[derive(Clone, Copy, Debug, PartialEq, Eq, Hash)]
pub struct Identity {
    pub bytes: [u8; 32],
}

impl View for Identity {
    type V = Seq<u8>;

    open spec fn view(&self) -> Seq<u8> {
        self.bytes@
    }
}

impl Identity {
    /// Wraps 32 raw bytes.
    pub fn new(bytes: [u8; 32]) -> (id: Identity)
        ensures
            id.bytes == bytes,
            id@ == bytes@,
    {
        Identity { bytes }
    }

    /// The raw bytes of the handle.
    pub fn to_bytes(&self) -> (bytes: [u8; 32])
        ensures
            bytes == self.bytes,
    {
        self.bytes
    }

    /// Whether two handles denote the same identity. Verified code compares
    /// with this; the derived `==` is there for callers outside.
    pub fn same(&self, other: &Identity) -> (r: bool)
        ensures
            r == (*self == *other),
            r == (self@ == other@),
    {
        let mut i: usize = 0;
        while i < 32
            invariant
                i <= 32,
                forall|j: int| 0 <= j < i ==> self.bytes[j] == other.bytes[j],
            decreases 32 - i,
        {
            if self.bytes[i] != other.bytes[i] {
                return false;
            }
            i = i + 1;
        }
        assert(self.bytes =~= other.bytes);
        true
    }
}

} // verus!
