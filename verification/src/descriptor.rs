//! The fixed header of a self-relative security descriptor.

use crate::error::DecodeError;
use crate::wire::{le_u16_at, le_u32_at, read_u16, read_u32, read_u8};
use vstd::prelude::*;

verus! {

/// The twenty-byte header of a security descriptor. Each offset counts bytes
/// from the start of the descriptor; zero says that the part is absent.
#[derive(Clone, Copy, Debug, PartialEq, Eq, Structural)]
pub struct SecurityDescriptor {
    pub revision: u8,
    pub sbz1: u8,
    pub control: u16,
    pub offset_owner: u32,
    pub offset_group: u32,
    pub offset_sacl: u32,
    pub offset_dacl: u32,
}

impl SecurityDescriptor {
    /// What the first twenty bytes of `s` mean as a header, and how many
    /// bytes that takes.
    pub open spec fn decode(s: Seq<u8>) -> Result<(SecurityDescriptor, int), DecodeError> {
        if s.len() < 20 {
            Err(DecodeError::TruncatedInput)
        } else {
            Ok(
                (
                    SecurityDescriptor {
                        revision: s[0],
                        sbz1: s[1],
                        control: le_u16_at(s, 2),
                        offset_owner: le_u32_at(s, 4),
                        offset_group: le_u32_at(s, 8),
                        offset_sacl: le_u32_at(s, 12),
                        offset_dacl: le_u32_at(s, 16),
                    },
                    20,
                ),
            )
        }
    }

    /// Reads the header from the head of `i` and hands out the bytes behind
    /// it. The offsets are reported as they stand; following them is the
    /// caller's part.
    pub fn parse(i: &[u8]) -> (r: Result<(&[u8], SecurityDescriptor), DecodeError>)
        ensures
            match r {
                Ok((rest, sd)) => Self::decode(i@) == Ok::<_, DecodeError>((sd, 20int)) && rest@
                    == i@.skip(20),
                Err(e) => Self::decode(i@) == Err::<(SecurityDescriptor, int), _>(e),
            },
    {
        let (i1, revision) = match read_u8(i) {
            Ok(p) => p,
            Err(e) => return Err(e),
        };
        let (i2, sbz1) = match read_u8(i1) {
            Ok(p) => p,
            Err(e) => return Err(e),
        };
        let (i3, control) = match read_u16(i2) {
            Ok(p) => p,
            Err(e) => return Err(e),
        };
        let (i4, offset_owner) = match read_u32(i3) {
            Ok(p) => p,
            Err(e) => return Err(e),
        };
        let (i5, offset_group) = match read_u32(i4) {
            Ok(p) => p,
            Err(e) => return Err(e),
        };
        let (i6, offset_sacl) = match read_u32(i5) {
            Ok(p) => p,
            Err(e) => return Err(e),
        };
        let (i7, offset_dacl) = match read_u32(i6) {
            Ok(p) => p,
            Err(e) => return Err(e),
        };
        assert(i2@ == i@.skip(2));
        assert(i3@ == i@.skip(4));
        assert(i4@ == i@.skip(8));
        assert(i5@ == i@.skip(12));
        assert(i6@ == i@.skip(16));
        assert(i7@ == i@.skip(20));
        assert(i2@.subrange(0, 2) == i@.subrange(2, 4));
        assert(i3@.subrange(0, 4) == i@.subrange(4, 8));
        assert(i4@.subrange(0, 4) == i@.subrange(8, 12));
        assert(i5@.subrange(0, 4) == i@.subrange(12, 16));
        assert(i6@.subrange(0, 4) == i@.subrange(16, 20));
        Ok(
            (
                i7,
                SecurityDescriptor {
                    revision,
                    sbz1,
                    control,
                    offset_owner,
                    offset_group,
                    offset_sacl,
                    offset_dacl,
                },
            ),
        )
    }
}

} // verus!
