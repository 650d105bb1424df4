//! The flag word at the head of an object entry's body.

use crate::error::DecodeError;
use crate::wire::{le_u32_at, read_u32};
use vstd::prelude::*;

verus! {

/// Bit 0: the entry carries the GUID of an object type.
pub const ACE_OBJECT_PRESENT: u32 = 0x0001;

/// Bit 1: the entry carries the GUID of an inherited object type.
pub const ACE_INHERITED_OBJECT_PRESENT: u32 = 0x0002;

/// A set of flag bits. Bits without a name are kept as they were read.
#[derive(Clone, Copy, Debug, PartialEq, Eq, Structural)]
pub struct ObjectAceFlags {
    pub bits: u32,
}

impl ObjectAceFlags {
    /// Whether every bit of `mask` is set.
    pub open spec fn has(self, mask: u32) -> bool {
        self.bits & mask == mask
    }

    /// Whether the GUID of an object type is present.
    pub open spec fn object_present(self) -> bool {
        self.has(ACE_OBJECT_PRESENT)
    }

    /// Whether the GUID of an inherited object type is present.
    pub open spec fn inherited_object_present(self) -> bool {
        self.has(ACE_INHERITED_OBJECT_PRESENT)
    }

    /// What four bytes mean as a flag word, and how many bytes that takes.
    pub open spec fn decode(s: Seq<u8>) -> Result<(ObjectAceFlags, int), DecodeError> {
        if s.len() < 4 {
            Err(DecodeError::TruncatedInput)
        } else {
            Ok((ObjectAceFlags { bits: le_u32_at(s, 0) }, 4))
        }
    }

    /// The flag set with exactly the bits of `bits`, named or not.
    pub fn from_bits_retain(bits: u32) -> (r: ObjectAceFlags)
        ensures
            r.bits == bits,
    {
        ObjectAceFlags { bits }
    }

    /// The bits of the set.
    pub fn bits(&self) -> (r: u32)
        ensures
            r == self.bits,
    {
        self.bits
    }

    /// Whether every bit of `mask` is set.
    pub fn contains(&self, mask: u32) -> (r: bool)
        ensures
            r == self.has(mask),
    {
        self.bits & mask == mask
    }

    /// Reads a little-endian flag word and keeps all of its bits.
    pub fn parse(i: &[u8]) -> (r: Result<(&[u8], ObjectAceFlags), DecodeError>)
        ensures
            match r {
                Ok((rest, flags)) => Self::decode(i@) == Ok::<_, DecodeError>((flags, 4int))
                    && rest@ == i@.skip(4),
                Err(e) => Self::decode(i@) == Err::<(ObjectAceFlags, int), _>(e),
            },
    {
        match read_u32(i) {
            Ok((rest, bits)) => Ok((rest, ObjectAceFlags { bits })),
            Err(e) => Err(e),
        }
    }
}

} // verus!
