//! Access control entries: the four-byte header and the body that its type
//! selects.

use crate::error::DecodeError;
use crate::flags::ObjectAceFlags;
use crate::sid::{LdapSid, SidView};
use crate::wire::{le_u128_at, le_u16_at, le_u32_at, read_u128, read_u16, read_u32, read_u8, take_bytes};
use vstd::prelude::*;
use vstd::slice::slice_to_vec;

verus! {

/// Entry type: access allowed.
pub const ACCESS_ALLOWED_ACE_TYPE: u8 = 0x00;

/// Entry type: access denied.
pub const ACCESS_DENIED_ACE_TYPE: u8 = 0x01;

/// Entry type: access allowed, scoped to an object type.
pub const ACCESS_ALLOWED_OBJECT_ACE_TYPE: u8 = 0x05;

/// Entry type: access denied, scoped to an object type.
pub const ACCESS_DENIED_OBJECT_ACE_TYPE: u8 = 0x06;

/// The body of an allow or deny entry: a permission mask and a trustee.
#[derive(Clone, Debug, PartialEq, Eq)]
pub struct AccessAllowedAce {
    pub mask: u32,
    pub sid: LdapSid,
}

/// What an [`AccessAllowedAce`] holds, as mathematics.
#[verifier::ext_equal]
pub struct AccessAllowedAceView {
    pub mask: u32,
    pub sid: SidView,
}

impl View for AccessAllowedAce {
    type V = AccessAllowedAceView;

    open spec fn view(&self) -> AccessAllowedAceView {
        AccessAllowedAceView { mask: self.mask, sid: self.sid@ }
    }
}

impl AccessAllowedAce {
    /// The trustee is well formed.
    pub open spec fn wf(&self) -> bool {
        self.sid.wf()
    }

    /// What the head of `s` means as the body of an allow or deny entry, and
    /// how many bytes that takes: four bytes of mask, then a SID.
    pub open spec fn decode(s: Seq<u8>) -> Result<(AccessAllowedAceView, int), DecodeError> {
        if s.len() < 4 {
            Err(DecodeError::TruncatedInput)
        } else {
            match LdapSid::decode(s.skip(4)) {
                Ok((sid, n)) => Ok((AccessAllowedAceView { mask: le_u32_at(s, 0), sid }, 4 + n)),
                Err(e) => Err(e),
            }
        }
    }

    /// Reads a mask and a SID from the head of `i` and hands out the bytes
    /// behind them.
    pub fn parse(i: &[u8]) -> (r: Result<(&[u8], AccessAllowedAce), DecodeError>)
        ensures
            match r {
                Ok((rest, ace)) => Self::decode(i@) == Ok::<_, DecodeError>(
                    (ace@, 4 + ace@.sid.encoded_len()),
                ) && rest@ == i@.skip(4 + ace@.sid.encoded_len()) && ace.wf(),
                Err(e) => Self::decode(i@) == Err::<(AccessAllowedAceView, int), _>(e),
            },
    {
        let (i1, mask) = match read_u32(i) {
            Ok(p) => p,
            Err(e) => return Err(e),
        };
        let (i2, sid) = match LdapSid::parse(i1) {
            Ok(p) => p,
            Err(e) => return Err(e),
        };
        assert(i2@ == i@.skip(4 + sid@.encoded_len()));
        Ok((i2, AccessAllowedAce { mask, sid }))
    }
}

/// The body of an allow or deny entry that is scoped to an object type.
#[derive(Clone, Debug, PartialEq, Eq)]
pub struct AccessAllowedObjectAce {
    pub mask: u32,
    pub flags: ObjectAceFlags,
    pub object_type: Option<u128>,
    pub inherited_object_type: Option<u128>,
    pub sid: LdapSid,
}

/// What an [`AccessAllowedObjectAce`] holds, as mathematics.
#[verifier::ext_equal]
pub struct AccessAllowedObjectAceView {
    pub mask: u32,
    pub flags: ObjectAceFlags,
    pub object_type: Option<u128>,
    pub inherited_object_type: Option<u128>,
    pub sid: SidView,
}

impl AccessAllowedObjectAceView {
    /// Each GUID is there exactly when its flag is set, and the trustee is
    /// well formed.
    pub open spec fn wf(self) -> bool {
        &&& self.object_type is Some <==> self.flags.object_present()
        &&& self.inherited_object_type is Some <==> self.flags.inherited_object_present()
        &&& self.sid.wf()
    }

    /// The number of bytes in front of the SID: mask and flags, and sixteen
    /// for each GUID that is there.
    pub open spec fn sid_offset(self) -> int {
        8 + (if self.object_type is Some {
            16int
        } else {
            0int
        }) + (if self.inherited_object_type is Some {
            16int
        } else {
            0int
        })
    }

    /// The number of bytes that the body takes on the wire.
    pub open spec fn encoded_len(self) -> int {
        self.sid_offset() + self.sid.encoded_len()
    }
}

impl View for AccessAllowedObjectAce {
    type V = AccessAllowedObjectAceView;

    open spec fn view(&self) -> AccessAllowedObjectAceView {
        AccessAllowedObjectAceView {
            mask: self.mask,
            flags: self.flags,
            object_type: self.object_type,
            inherited_object_type: self.inherited_object_type,
            sid: self.sid@,
        }
    }
}

impl AccessAllowedObjectAce {
    /// Each GUID is there exactly when its flag is set, and the trustee is
    /// well formed.
    pub open spec fn wf(&self) -> bool {
        self@.wf()
    }

    /// Where the GUID of the inherited object type starts, if there is one:
    /// behind mask and flags, and behind the first GUID if that is there.
    pub open spec fn inherited_offset(flags: ObjectAceFlags) -> int {
        if flags.object_present() {
            24
        } else {
            8
        }
    }

    /// Where the SID starts: behind mask and flags, and behind each GUID that
    /// the flags announce.
    pub open spec fn sid_offset(flags: ObjectAceFlags) -> int {
        Self::inherited_offset(flags) + if flags.inherited_object_present() {
            16int
        } else {
            0int
        }
    }

    /// What the head of `s` means as the body of an object entry, and how many
    /// bytes that takes: mask, flags, the GUIDs that the flags announce, in
    /// that order, then a SID.
    pub open spec fn decode(s: Seq<u8>) -> Result<(AccessAllowedObjectAceView, int), DecodeError> {
        if s.len() < 8 {
            Err(DecodeError::TruncatedInput)
        } else {
            let flags = ObjectAceFlags { bits: le_u32_at(s, 4) };
            if s.len() < Self::sid_offset(flags) {
                Err(DecodeError::TruncatedInput)
            } else {
                match LdapSid::decode(s.skip(Self::sid_offset(flags))) {
                    Ok((sid, n)) => Ok(
                        (
                            AccessAllowedObjectAceView {
                                mask: le_u32_at(s, 0),
                                flags,
                                object_type: if flags.object_present() {
                                    Some(le_u128_at(s, 8))
                                } else {
                                    None
                                },
                                inherited_object_type: if flags.inherited_object_present() {
                                    Some(le_u128_at(s, Self::inherited_offset(flags)))
                                } else {
                                    None
                                },
                                sid,
                            },
                            Self::sid_offset(flags) + n,
                        ),
                    ),
                    Err(e) => Err(e),
                }
            }
        }
    }

    /// Reads the body of an object entry from the head of `i` and hands out
    /// the bytes behind it. A GUID whose flag is clear takes no bytes.
    pub fn parse(i: &[u8]) -> (r: Result<(&[u8], AccessAllowedObjectAce), DecodeError>)
        ensures
            match r {
                Ok((rest, ace)) => Self::decode(i@) == Ok::<_, DecodeError>(
                    (ace@, ace@.encoded_len()),
                ) && rest@ == i@.skip(ace@.encoded_len()) && ace.wf(),
                Err(e) => Self::decode(i@) == Err::<(AccessAllowedObjectAceView, int), _>(e),
            },
    {
        let (i1, mask) = match read_u32(i) {
            Ok(p) => p,
            Err(e) => return Err(e),
        };
        let (i2, flags) = match ObjectAceFlags::parse(i1) {
            Ok(p) => p,
            Err(e) => return Err(e),
        };
        assert(i1@.subrange(0, 4) == i@.subrange(4, 8));
        assert(i2@ == i@.skip(8));
        let (i3, object_type) = if flags.contains(crate::flags::ACE_OBJECT_PRESENT) {
            match read_u128(i2) {
                Ok((rest, guid)) => {
                    assert(i2@.subrange(0, 16) == i@.subrange(8, 24));
                    (rest, Some(guid))
                },
                Err(e) => return Err(e),
            }
        } else {
            (i2, None)
        };
        let ghost o1 = Self::inherited_offset(flags);
        assert(i3@ == i@.skip(o1));
        let (i4, inherited_object_type) = if flags.contains(
            crate::flags::ACE_INHERITED_OBJECT_PRESENT,
        ) {
            match read_u128(i3) {
                Ok((rest, guid)) => {
                    assert(i3@.subrange(0, 16) == i@.subrange(o1, o1 + 16));
                    (rest, Some(guid))
                },
                Err(e) => return Err(e),
            }
        } else {
            (i3, None)
        };
        let ghost o2 = Self::sid_offset(flags);
        assert(i4@ == i@.skip(o2));
        let (i5, sid) = match LdapSid::parse(i4) {
            Ok(p) => p,
            Err(e) => return Err(e),
        };
        assert(i5@ == i@.skip(o2 + sid@.encoded_len()));
        Ok((i5, AccessAllowedObjectAce { mask, flags, object_type, inherited_object_type, sid }))
    }
}

/// The body of an entry, as its type selects it.
#[derive(Clone, Debug, PartialEq, Eq)]
pub enum AceFormat {
    /// An allow or deny entry.
    AceAllowed(AccessAllowedAce),
    /// An allow or deny entry that is scoped to an object type.
    AceObjectAllowed(AccessAllowedObjectAce),
    /// An entry of any other type: its body, byte for byte.
    Unrecognized(Vec<u8>),
}

/// What an [`AceFormat`] holds, as mathematics.
#[verifier::ext_equal]
pub enum AceFormatView {
    AceAllowed(AccessAllowedAceView),
    AceObjectAllowed(AccessAllowedObjectAceView),
    Unrecognized(Seq<u8>),
}

impl View for AceFormat {
    type V = AceFormatView;

    open spec fn view(&self) -> AceFormatView {
        match self {
            AceFormat::AceAllowed(a) => AceFormatView::AceAllowed(a@),
            AceFormat::AceObjectAllowed(a) => AceFormatView::AceObjectAllowed(a@),
            AceFormat::Unrecognized(raw) => AceFormatView::Unrecognized(raw@),
        }
    }
}

impl AceFormatView {
    /// The permission mask, where the body has one.
    pub open spec fn mask(self) -> Option<u32> {
        match self {
            AceFormatView::AceAllowed(a) => Some(a.mask),
            AceFormatView::AceObjectAllowed(a) => Some(a.mask),
            AceFormatView::Unrecognized(_) => None,
        }
    }

    /// The trustee, where the body has one.
    pub open spec fn sid(self) -> Option<SidView> {
        match self {
            AceFormatView::AceAllowed(a) => Some(a.sid),
            AceFormatView::AceObjectAllowed(a) => Some(a.sid),
            AceFormatView::Unrecognized(_) => None,
        }
    }

    /// The flag word, which only an object entry has.
    pub open spec fn flags(self) -> Option<ObjectAceFlags> {
        match self {
            AceFormatView::AceObjectAllowed(a) => Some(a.flags),
            _ => None,
        }
    }

    /// The GUID of the object type, which only an object entry can have.
    pub open spec fn object_type(self) -> Option<u128> {
        match self {
            AceFormatView::AceObjectAllowed(a) => a.object_type,
            _ => None,
        }
    }

    /// The GUID of the inherited object type, which only an object entry can
    /// have.
    pub open spec fn inherited_object_type(self) -> Option<u128> {
        match self {
            AceFormatView::AceObjectAllowed(a) => a.inherited_object_type,
            _ => None,
        }
    }

    /// The variant's own body is well formed; raw bytes always are.
    pub open spec fn wf(self) -> bool {
        match self {
            AceFormatView::AceAllowed(a) => a.sid.wf(),
            AceFormatView::AceObjectAllowed(a) => a.wf(),
            AceFormatView::Unrecognized(_) => true,
        }
    }

    /// The number of bytes that the body takes on the wire when nothing
    /// follows its SID.
    pub open spec fn encoded_len(self) -> int {
        match self {
            AceFormatView::AceAllowed(a) => 4 + a.sid.encoded_len(),
            AceFormatView::AceObjectAllowed(a) => a.encoded_len(),
            AceFormatView::Unrecognized(raw) => raw.len() as int,
        }
    }
}

/// Whether `ace_type` selects the body of a plain allow or deny entry.
pub open spec fn is_simple_type(ace_type: u8) -> bool {
    ace_type == ACCESS_ALLOWED_ACE_TYPE || ace_type == ACCESS_DENIED_ACE_TYPE
}

/// Whether `ace_type` selects the body of an object entry.
pub open spec fn is_object_type(ace_type: u8) -> bool {
    ace_type == ACCESS_ALLOWED_OBJECT_ACE_TYPE || ace_type == ACCESS_DENIED_OBJECT_ACE_TYPE
}

impl AceFormat {
    /// The variant's own body is well formed; raw bytes always are.
    pub open spec fn wf(&self) -> bool {
        self@.wf()
    }

    /// What the body `s` of an entry of type `ace_type` means. A type that is
    /// neither plain nor object keeps the whole body and never fails.
    pub open spec fn decode(s: Seq<u8>, ace_type: u8) -> Result<AceFormatView, DecodeError> {
        if is_simple_type(ace_type) {
            match AccessAllowedAce::decode(s) {
                Ok((a, _)) => Ok(AceFormatView::AceAllowed(a)),
                Err(e) => Err(e),
            }
        } else if is_object_type(ace_type) {
            match AccessAllowedObjectAce::decode(s) {
                Ok((a, _)) => Ok(AceFormatView::AceObjectAllowed(a)),
                Err(e) => Err(e),
            }
        } else {
            Ok(AceFormatView::Unrecognized(s))
        }
    }

    /// Decodes the body `i` of an entry of type `ace_type`. The slice handed
    /// back is `i` itself: the body belongs to the entry as a whole.
    pub fn parse(i: &[u8], ace_type: u8) -> (r: Result<(&[u8], AceFormat), DecodeError>)
        ensures
            match r {
                Ok((rest, data)) => Self::decode(i@, ace_type) == Ok::<_, DecodeError>(data@)
                    && rest@ == i@ && data.wf(),
                Err(e) => Self::decode(i@, ace_type) == Err::<AceFormatView, _>(e),
            },
            !is_simple_type(ace_type) && !is_object_type(ace_type) ==> (r matches Ok((_, data))
                && data@ == AceFormatView::Unrecognized(i@)),
    {
        if ace_type == ACCESS_ALLOWED_ACE_TYPE || ace_type == ACCESS_DENIED_ACE_TYPE {
            match AccessAllowedAce::parse(i) {
                Ok((_, a)) => Ok((i, AceFormat::AceAllowed(a))),
                Err(e) => Err(e),
            }
        } else if ace_type == ACCESS_ALLOWED_OBJECT_ACE_TYPE || ace_type
            == ACCESS_DENIED_OBJECT_ACE_TYPE {
            match AccessAllowedObjectAce::parse(i) {
                Ok((_, a)) => Ok((i, AceFormat::AceObjectAllowed(a))),
                Err(e) => Err(e),
            }
        } else {
            Ok((i, AceFormat::Unrecognized(slice_to_vec(i))))
        }
    }

    /// The number of bytes that the body takes on the wire when nothing
    /// follows its SID.
    pub fn encoded_len(&self) -> (r: usize)
        ensures
            r == self@.encoded_len(),
    {
        match self {
            AceFormat::AceAllowed(a) => 4 + a.sid.encoded_len(),
            AceFormat::AceObjectAllowed(a) => {
                let first: usize = if a.object_type.is_some() {
                    16
                } else {
                    0
                };
                let second: usize = if a.inherited_object_type.is_some() {
                    16
                } else {
                    0
                };
                8 + first + second + a.sid.encoded_len()
            },
            AceFormat::Unrecognized(raw) => raw.len(),
        }
    }

    /// The permission mask, or `None` for an unrecognized body.
    pub fn get_mask(value: AceFormat) -> (r: Option<u32>)
        ensures
            r == value@.mask(),
    {
        match value {
            AceFormat::AceAllowed(ace) => Some(ace.mask),
            AceFormat::AceObjectAllowed(ace) => Some(ace.mask),
            AceFormat::Unrecognized(_) => None,
        }
    }

    /// The trustee, or `None` for an unrecognized body.
    pub fn get_sid(value: AceFormat) -> (r: Option<LdapSid>)
        ensures
            match r {
                Some(sid) => value@.sid() == Some(sid@),
                None => value@.sid() is None,
            },
    {
        match value {
            AceFormat::AceAllowed(ace) => Some(ace.sid),
            AceFormat::AceObjectAllowed(ace) => Some(ace.sid),
            AceFormat::Unrecognized(_) => None,
        }
    }

    /// The flag word of an object entry, or `None` for any other body.
    pub fn get_flags(value: AceFormat) -> (r: Option<ObjectAceFlags>)
        ensures
            r == value@.flags(),
    {
        match value {
            AceFormat::AceAllowed(_) => None,
            AceFormat::AceObjectAllowed(ace) => Some(ace.flags),
            AceFormat::Unrecognized(_) => None,
        }
    }

    /// The GUID of the object type, or `None` where the body has none.
    pub fn get_object_type(value: AceFormat) -> (r: Option<u128>)
        ensures
            r == value@.object_type(),
    {
        match value {
            AceFormat::AceAllowed(_) => None,
            AceFormat::AceObjectAllowed(ace) => ace.object_type,
            AceFormat::Unrecognized(_) => None,
        }
    }

    /// The GUID of the inherited object type, or `None` where the body has
    /// none.
    pub fn get_inherited_object_type(value: AceFormat) -> (r: Option<u128>)
        ensures
            r == value@.inherited_object_type(),
    {
        match value {
            AceFormat::AceAllowed(_) => None,
            AceFormat::AceObjectAllowed(ace) => ace.inherited_object_type,
            AceFormat::Unrecognized(_) => None,
        }
    }
}

/// One access control entry: its header and its body.
#[derive(Clone, Debug, PartialEq, Eq)]
pub struct Ace {
    pub ace_type: u8,
    pub ace_flags: u8,
    pub ace_size: u16,
    pub data: AceFormat,
}

/// What an [`Ace`] holds, as mathematics.
#[verifier::ext_equal]
pub struct AceView {
    pub ace_type: u8,
    pub ace_flags: u8,
    pub ace_size: u16,
    pub data: AceFormatView,
}

impl AceView {
    /// The size covers the header, and the body is well formed.
    pub open spec fn wf(self) -> bool {
        self.ace_size >= 4 && self.data.wf()
    }

    /// The declared size is the header and exactly what the body holds: no
    /// byte is left behind the SID.
    pub open spec fn is_exact(self) -> bool {
        self.ace_size == 4 + self.data.encoded_len()
    }
}

impl View for Ace {
    type V = AceView;

    open spec fn view(&self) -> AceView {
        AceView {
            ace_type: self.ace_type,
            ace_flags: self.ace_flags,
            ace_size: self.ace_size,
            data: self.data@,
        }
    }
}

impl Ace {
    /// The size covers the header, and the body is well formed.
    pub open spec fn wf(&self) -> bool {
        self@.wf()
    }

    /// What the head of `s` means as an entry, and how many bytes that takes:
    /// the size that the entry declares. The body is the `size - 4` bytes
    /// behind the header and nothing else.
    pub open spec fn decode(s: Seq<u8>) -> Result<(AceView, int), DecodeError> {
        if s.len() < 4 {
            Err(DecodeError::TruncatedInput)
        } else if le_u16_at(s, 2) < 4 {
            Err(DecodeError::InvalidAceSize)
        } else if s.len() < le_u16_at(s, 2) {
            Err(DecodeError::TruncatedInput)
        } else {
            match AceFormat::decode(s.subrange(4, le_u16_at(s, 2) as int), s[0]) {
                Ok(data) => Ok(
                    (
                        AceView {
                            ace_type: s[0],
                            ace_flags: s[1],
                            ace_size: le_u16_at(s, 2),
                            data,
                        },
                        le_u16_at(s, 2) as int,
                    ),
                ),
                Err(e) => Err(e),
            }
        }
    }

    /// Whether the declared size is the header and exactly what the body
    /// holds.
    pub fn is_exact(&self) -> (r: bool)
        ensures
            r == self@.is_exact(),
    {
        self.ace_size >= 4 && (self.ace_size - 4) as usize == self.data.encoded_len()
    }

    /// Reads one entry from the head of `i` and hands out the bytes behind the
    /// size it declares.
    pub fn parse(i: &[u8]) -> (r: Result<(&[u8], Ace), DecodeError>)
        ensures
            match r {
                Ok((rest, ace)) => Self::decode(i@) == Ok::<_, DecodeError>(
                    (ace@, ace.ace_size as int),
                ) && rest@ == i@.skip(ace.ace_size as int) && ace.wf(),
                Err(e) => Self::decode(i@) == Err::<(AceView, int), _>(e),
            },
    {
        let (i1, ace_type) = match read_u8(i) {
            Ok(p) => p,
            Err(e) => return Err(e),
        };
        let (i2, ace_flags) = match read_u8(i1) {
            Ok(p) => p,
            Err(e) => return Err(e),
        };
        let (i3, ace_size) = match read_u16(i2) {
            Ok(p) => p,
            Err(e) => return Err(e),
        };
        assert(i2@ == i@.skip(2));
        assert(i2@.subrange(0, 2) == i@.subrange(2, 4));
        assert(i3@ == i@.skip(4));
        if ace_size < 4 {
            return Err(DecodeError::InvalidAceSize);
        }
        let body_len: usize = (ace_size - 4) as usize;
        let (i4, body) = match take_bytes(i3, body_len) {
            Ok(p) => p,
            Err(e) => return Err(e),
        };
        assert(body@ == i@.subrange(4, ace_size as int));
        assert(i4@ == i@.skip(ace_size as int));
        let (_, data) = match AceFormat::parse(body, ace_type) {
            Ok(p) => p,
            Err(e) => return Err(e),
        };
        Ok((i4, Ace { ace_type, ace_flags, ace_size, data }))
    }
}

} // verus!
