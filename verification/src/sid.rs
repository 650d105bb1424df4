//! Security identifiers: a revision, a six-byte authority and a counted list
//! of 32-bit sub-authorities.

use crate::error::DecodeError;
use crate::wire::{le_u32_at, read_u32, read_u8, take_bytes, u32_le_bytes};
use vstd::prelude::*;
use vstd::slice::slice_to_vec;

verus! {

/// The identifier authority of a SID: six bytes, the most significant first.
#[derive(Clone, Debug, PartialEq, Eq)]
pub struct LdapSidIdentifiedAuthority {
    pub value: Vec<u8>,
}

impl View for LdapSidIdentifiedAuthority {
    type V = Seq<u8>;

    open spec fn view(&self) -> Seq<u8> {
        self.value@
    }
}

impl LdapSidIdentifiedAuthority {
    /// An authority holds exactly six bytes.
    pub open spec fn wf(&self) -> bool {
        self.value@.len() == 6
    }

    /// What the head of `s` means as an authority, and how many bytes that
    /// takes.
    pub open spec fn decode(s: Seq<u8>) -> Result<(Seq<u8>, int), DecodeError> {
        if s.len() < 6 {
            Err(DecodeError::TruncatedInput)
        } else {
            Ok((s.take(6), 6))
        }
    }

    /// Reads the six bytes of an identifier authority.
    pub fn parse(i: &[u8]) -> (r: Result<(&[u8], LdapSidIdentifiedAuthority), DecodeError>)
        ensures
            match r {
                Ok((rest, a)) => Self::decode(i@) == Ok::<_, DecodeError>((a@, 6int)) && rest@
                    == i@.skip(6) && a.wf(),
                Err(e) => Self::decode(i@) == Err::<(Seq<u8>, int), _>(e),
            },
    {
        match take_bytes(i, 6) {
            Ok((rest, taken)) => Ok((rest, LdapSidIdentifiedAuthority { value: slice_to_vec(taken) })),
            Err(e) => Err(e),
        }
    }
}

/// A security identifier.
#[derive(Clone, Debug, PartialEq, Eq)]
pub struct LdapSid {
    pub revision: u8,
    pub sub_authority_count: u8,
    pub identifier_authority: LdapSidIdentifiedAuthority,
    pub sub_authority: Vec<u32>,
}

/// What a [`LdapSid`] holds, as mathematics.
#[verifier::ext_equal]
pub struct SidView {
    pub revision: u8,
    pub sub_authority_count: u8,
    pub identifier_authority: Seq<u8>,
    pub sub_authority: Seq<u32>,
}

impl SidView {
    /// The authority has six bytes and the list is as long as the count says.
    pub open spec fn wf(self) -> bool {
        &&& self.identifier_authority.len() == 6
        &&& self.sub_authority.len() == self.sub_authority_count
    }

    /// The number of bytes that the SID takes on the wire.
    pub open spec fn encoded_len(self) -> int {
        8 + 4 * self.sub_authority_count
    }

    /// The canonical bytes of the SID: revision, count, the six bytes of the
    /// authority, then each sub-authority in little-endian order.
    pub open spec fn encode(self) -> Seq<u8> {
        seq![self.revision, self.sub_authority_count] + self.identifier_authority
            + encode_sub_authorities(self.sub_authority)
    }
}

/// The bytes of a list of sub-authorities: four for each, in order, the least
/// significant byte first.
pub open spec fn encode_sub_authorities(subs: Seq<u32>) -> Seq<u8> {
    Seq::new(4 * subs.len(), |j: int| u32_le_bytes(subs[j / 4])[j % 4])
}

impl View for LdapSid {
    type V = SidView;

    open spec fn view(&self) -> SidView {
        SidView {
            revision: self.revision,
            sub_authority_count: self.sub_authority_count,
            identifier_authority: self.identifier_authority@,
            sub_authority: self.sub_authority@,
        }
    }
}

impl LdapSid {
    /// The authority has six bytes and the list is as long as the count says.
    pub open spec fn wf(&self) -> bool {
        self@.wf()
    }

    /// The number of bytes that a SID at the head of `s` declares for itself:
    /// eight, and four for each sub-authority that its second byte counts.
    pub open spec fn declared_len(s: Seq<u8>) -> int {
        8 + 4 * s[1]
    }

    /// What the head of `s` means as a SID, and how many bytes that takes.
    /// Any revision is accepted.
    pub open spec fn decode(s: Seq<u8>) -> Result<(SidView, int), DecodeError> {
        if s.len() < 8 || s.len() < Self::declared_len(s) {
            Err(DecodeError::TruncatedInput)
        } else {
            Ok(
                (
                    SidView {
                        revision: s[0],
                        sub_authority_count: s[1],
                        identifier_authority: s.subrange(2, 8),
                        sub_authority: Seq::new(s[1] as nat, |k: int| le_u32_at(s, 8 + 4 * k)),
                    },
                    Self::declared_len(s),
                ),
            )
        }
    }

    /// The number of bytes that the SID takes on the wire.
    pub fn encoded_len(&self) -> (r: usize)
        ensures
            r == self@.encoded_len(),
    {
        8 + 4 * (self.sub_authority_count as usize)
    }

    /// Reads a SID from the head of `i` and hands out the bytes behind it.
    pub fn parse(i: &[u8]) -> (r: Result<(&[u8], LdapSid), DecodeError>)
        ensures
            match r {
                Ok((rest, sid)) => Self::decode(i@) == Ok::<_, DecodeError>(
                    (sid@, sid@.encoded_len()),
                ) && rest@ == i@.skip(sid@.encoded_len()) && sid.wf(),
                Err(e) => Self::decode(i@) == Err::<(SidView, int), _>(e),
            },
    {
        let (i1, revision) = match read_u8(i) {
            Ok(p) => p,
            Err(e) => return Err(e),
        };
        let (i2, sub_authority_count) = match read_u8(i1) {
            Ok(p) => p,
            Err(e) => return Err(e),
        };
        let (i3, identifier_authority) = match LdapSidIdentifiedAuthority::parse(i2) {
            Ok(p) => p,
            Err(e) => return Err(e),
        };
        assert(i2@ == i@.skip(2));
        assert(i3@ == i@.skip(8));
        assert(identifier_authority@ == i@.subrange(2, 8));
        let mut sub_authority: Vec<u32> = Vec::new();
        let mut cur = i3;
        let mut k: u8 = 0;
        while k < sub_authority_count
            invariant
                k <= sub_authority_count,
                i@.len() >= 8 + 4 * k,
                cur@ == i@.skip(8 + 4 * k),
                sub_authority@.len() == k,
                forall|j: int| 0 <= j < k ==> sub_authority@[j] == le_u32_at(i@, 8 + 4 * j),
                sub_authority_count == i@[1],
            decreases sub_authority_count - k,
        {
            match read_u32(cur) {
                Ok((rest, v)) => {
                    assert(cur@.subrange(0, 4) == i@.subrange(8 + 4 * k, 8 + 4 * k + 4));
                    assert(rest@ == i@.skip(8 + 4 * (k + 1)));
                    sub_authority.push(v);
                    cur = rest;
                    k = k + 1;
                },
                Err(e) => {
                    return Err(e);
                },
            }
        }
        let sid = LdapSid { revision, sub_authority_count, identifier_authority, sub_authority };
        assert(sid@ =~= Self::decode(i@)->Ok_0.0);
        Ok((cur, sid))
    }
}

} // verus!
