use secdesc::ace::{
    ACCESS_ALLOWED_ACE_TYPE, ACCESS_ALLOWED_OBJECT_ACE_TYPE, ACCESS_DENIED_ACE_TYPE,
    ACCESS_DENIED_OBJECT_ACE_TYPE,
};
use secdesc::flags::{ACE_INHERITED_OBJECT_PRESENT, ACE_OBJECT_PRESENT};
use secdesc::wire::{read_u128, read_u16, read_u32, read_u8, take_bytes};
use secdesc::{
    AccessAllowedAce, AccessAllowedObjectAce, Ace, AceFormat, Acl, DecodeError, LdapSid,
    LdapSidIdentifiedAuthority, ObjectAceFlags, SecurityDescriptor,
};

/// The canonical bytes of a SID.
fn encode_sid(revision: u8, authority: [u8; 6], subs: &[u32]) -> Vec<u8> {
    let mut out = vec![revision, subs.len() as u8];
    out.extend_from_slice(&authority);
    for sub in subs {
        out.extend_from_slice(&sub.to_le_bytes());
    }
    out
}

fn builtin_admins() -> Vec<u8> {
    encode_sid(1, [0, 0, 0, 0, 0, 5], &[32, 544])
}

const GUID_A: u128 = 0xe249_3000_aa00_85a2_11d0_0de6_bf96_7aba;
const GUID_B: u128 = 0x0011_2233_4455_6677_8899_aabb_ccdd_eeff;

/// The body of an object entry with the given flag word.
fn object_body(mask: u32, flags: u32, sid: &[u8]) -> Vec<u8> {
    let mut out = Vec::new();
    out.extend_from_slice(&mask.to_le_bytes());
    out.extend_from_slice(&flags.to_le_bytes());
    if flags & 1 != 0 {
        out.extend_from_slice(&GUID_A.to_le_bytes());
    }
    if flags & 2 != 0 {
        out.extend_from_slice(&GUID_B.to_le_bytes());
    }
    out.extend_from_slice(sid);
    out
}

/// An entry with the header that fits `body`.
fn entry(ace_type: u8, ace_flags: u8, body: &[u8]) -> Vec<u8> {
    let mut out = vec![ace_type, ace_flags];
    out.extend_from_slice(&((body.len() + 4) as u16).to_le_bytes());
    out.extend_from_slice(body);
    out
}

/// A list with the header that fits `entries`.
fn list(entries: &[Vec<u8>]) -> Vec<u8> {
    let total: usize = 8 + entries.iter().map(|e| e.len()).sum::<usize>();
    let mut out = vec![2, 0];
    out.extend_from_slice(&(total as u16).to_le_bytes());
    out.extend_from_slice(&(entries.len() as u16).to_le_bytes());
    out.extend_from_slice(&[0, 0]);
    for e in entries {
        out.extend_from_slice(e);
    }
    out
}

#[test]
fn read_u8_takes_the_first_byte() {
    let bytes = [0x7f, 0x80, 0x81];
    let (rest, v) = read_u8(&bytes).unwrap();
    assert_eq!(v, 0x7f);
    assert_eq!(rest, &[0x80, 0x81]);
    assert_eq!(read_u8(&[]).unwrap_err(), DecodeError::TruncatedInput);
}

#[test]
fn read_u16_is_little_endian() {
    let bytes = [0x34, 0x12, 0xff];
    let (rest, v) = read_u16(&bytes).unwrap();
    assert_eq!(v, 0x1234);
    assert_eq!(rest, &[0xff]);
    assert_eq!(read_u16(&[0x34]).unwrap_err(), DecodeError::TruncatedInput);
}

#[test]
fn read_u32_is_little_endian() {
    let bytes = [0x78, 0x56, 0x34, 0x12, 0xaa, 0xbb];
    let (rest, v) = read_u32(&bytes).unwrap();
    assert_eq!(v, 0x1234_5678);
    assert_eq!(rest, &[0xaa, 0xbb]);
    assert_eq!(read_u32(&[0xff, 0xff, 0xff, 0xff]).unwrap().1, u32::MAX);
    assert_eq!(read_u32(&[1, 2, 3]).unwrap_err(), DecodeError::TruncatedInput);
}

#[test]
fn read_u128_is_little_endian() {
    let mut bytes = GUID_A.to_le_bytes().to_vec();
    assert_eq!(bytes[0], 0xba);
    assert_eq!(bytes[15], 0xe2);
    bytes.push(9);
    let (rest, v) = read_u128(&bytes).unwrap();
    assert_eq!(v, GUID_A);
    assert_eq!(rest, &[9]);
    assert_eq!(read_u128(&[0xff; 16]).unwrap().1, u128::MAX);
    assert_eq!(read_u128(&bytes[..15]).unwrap_err(), DecodeError::TruncatedInput);
}

#[test]
fn take_bytes_splits_behind_the_count() {
    let bytes = [1, 2, 3, 4, 5];
    let (rest, taken) = take_bytes(&bytes, 2).unwrap();
    assert_eq!(taken, &[1, 2]);
    assert_eq!(rest, &[3, 4, 5]);
    let (rest, taken) = take_bytes(&bytes, 0).unwrap();
    assert!(taken.is_empty());
    assert_eq!(rest, &bytes);
    let (rest, taken) = take_bytes(&bytes, 5).unwrap();
    assert_eq!(taken, &bytes);
    assert!(rest.is_empty());
    assert_eq!(take_bytes(&bytes, 6).unwrap_err(), DecodeError::TruncatedInput);
}

#[test]
fn descriptor_header_takes_twenty_bytes() {
    let mut bytes = vec![1, 0, 4, 140, 120, 9, 0, 0, 1, 2, 3, 4, 5, 6, 7, 8, 20, 0, 0, 0];
    bytes.extend_from_slice(&[0xde, 0xad]);
    let (rest, sd) = SecurityDescriptor::parse(&bytes).unwrap();
    assert_eq!(rest, &[0xde, 0xad]);
    assert_eq!(
        sd,
        SecurityDescriptor {
            revision: 1,
            sbz1: 0,
            control: 35844,
            offset_owner: 2424,
            offset_group: 0x0403_0201,
            offset_sacl: 0x0807_0605,
            offset_dacl: 20,
        }
    );
}

#[test]
fn descriptor_header_cut_short_is_truncated() {
    let bytes = [1u8, 0, 4, 140, 120, 9, 0, 0, 0, 0, 0, 0, 0, 0, 0, 0, 20, 0, 0, 0];
    for cut in 0..20 {
        assert_eq!(
            SecurityDescriptor::parse(&bytes[..cut]).unwrap_err(),
            DecodeError::TruncatedInput
        );
    }
    assert!(SecurityDescriptor::parse(&bytes).is_ok());
}

#[test]
fn authority_is_six_bytes_as_they_stand() {
    let bytes = [0, 0, 0, 0, 0, 5, 0x15];
    let (rest, authority) = LdapSidIdentifiedAuthority::parse(&bytes).unwrap();
    assert_eq!(authority.value, vec![0, 0, 0, 0, 0, 5]);
    assert_eq!(rest, &[0x15]);
    assert_eq!(
        LdapSidIdentifiedAuthority::parse(&bytes[..5]).unwrap_err(),
        DecodeError::TruncatedInput
    );
}

#[test]
fn sid_round_trips_through_its_canonical_bytes() {
    let subs = [21, 0x4209_20c1, 0xf592_1430, 0x5f95_fe91, 553];
    let bytes = encode_sid(1, [0, 0, 0, 0, 0, 5], &subs);
    assert_eq!(bytes.len(), 8 + 4 * 5);
    let (rest, sid) = LdapSid::parse(&bytes).unwrap();
    assert!(rest.is_empty());
    assert_eq!(
        sid,
        LdapSid {
            revision: 1,
            sub_authority_count: 5,
            identifier_authority: LdapSidIdentifiedAuthority { value: vec![0, 0, 0, 0, 0, 5] },
            sub_authority: subs.to_vec(),
        }
    );
    assert_eq!(sid.encoded_len(), 28);
    assert_eq!(
        encode_sid(sid.revision, [0, 0, 0, 0, 0, 5], &sid.sub_authority),
        bytes
    );
}

#[test]
fn sid_leaves_the_bytes_behind_it() {
    let mut bytes = builtin_admins();
    bytes.extend_from_slice(&[7, 8, 9]);
    let (rest, sid) = LdapSid::parse(&bytes).unwrap();
    assert_eq!(rest, &[7, 8, 9]);
    assert_eq!(sid.sub_authority, vec![32, 544]);
}

#[test]
fn sid_without_sub_authorities_takes_eight_bytes() {
    let bytes = encode_sid(1, [0, 0, 0, 0, 0, 1], &[]);
    assert_eq!(bytes.len(), 8);
    let (rest, sid) = LdapSid::parse(&bytes).unwrap();
    assert!(rest.is_empty());
    assert_eq!(sid.sub_authority_count, 0);
    assert!(sid.sub_authority.is_empty());
    assert_eq!(sid.encoded_len(), 8);
}

#[test]
fn sid_with_the_largest_count() {
    let subs: Vec<u32> = (0..255u32).map(|k| k * 0x0101_0101).collect();
    let bytes = encode_sid(1, [1, 2, 3, 4, 5, 6], &subs);
    assert_eq!(bytes.len(), 8 + 4 * 255);
    let (rest, sid) = LdapSid::parse(&bytes).unwrap();
    assert!(rest.is_empty());
    assert_eq!(sid.sub_authority_count, 255);
    assert_eq!(sid.sub_authority, subs);
    assert_eq!(sid.encoded_len(), 1028);
    assert_eq!(LdapSid::parse(&bytes[..1027]).unwrap_err(), DecodeError::TruncatedInput);
}

#[test]
fn sid_echoes_any_revision() {
    for revision in [0u8, 1, 2, 0x7f, 0xff] {
        let bytes = encode_sid(revision, [9, 8, 7, 6, 5, 4], &[1]);
        let sid = LdapSid::parse(&bytes).unwrap().1;
        assert_eq!(sid.revision, revision);
        assert_eq!(sid.identifier_authority.value, vec![9, 8, 7, 6, 5, 4]);
    }
}

#[test]
fn sid_cut_anywhere_is_truncated() {
    let bytes = builtin_admins();
    assert_eq!(bytes.len(), 16);
    for cut in 0..16 {
        assert_eq!(LdapSid::parse(&bytes[..cut]).unwrap_err(), DecodeError::TruncatedInput);
    }
    assert!(LdapSid::parse(&bytes).is_ok());
}

#[test]
fn flag_word_keeps_unknown_bits() {
    let bytes = [0x02, 0x00, 0x00, 0x80, 0x55];
    let (rest, flags) = ObjectAceFlags::parse(&bytes).unwrap();
    assert_eq!(rest, &[0x55]);
    assert_eq!(flags.bits(), 0x8000_0002);
    assert_eq!(flags, ObjectAceFlags::from_bits_retain(0x8000_0002));
    assert!(!flags.contains(ACE_OBJECT_PRESENT));
    assert!(flags.contains(ACE_INHERITED_OBJECT_PRESENT));
    assert!(!flags.contains(ACE_OBJECT_PRESENT | ACE_INHERITED_OBJECT_PRESENT));
    assert!(flags.contains(0));
    assert_eq!(ObjectAceFlags::parse(&bytes[..3]).unwrap_err(), DecodeError::TruncatedInput);
}

#[test]
fn flag_names_are_bits_zero_and_one() {
    assert_eq!(ACE_OBJECT_PRESENT, 1);
    assert_eq!(ACE_INHERITED_OBJECT_PRESENT, 2);
    let both = ObjectAceFlags::from_bits_retain(3);
    assert!(both.contains(ACE_OBJECT_PRESENT));
    assert!(both.contains(ACE_INHERITED_OBJECT_PRESENT));
    assert!(both.contains(3));
    assert!(!both.contains(4));
}

#[test]
fn simple_body_is_mask_then_sid() {
    let mut body = vec![0xbd, 0x01, 0x0f, 0x00];
    body.extend_from_slice(&builtin_admins());
    body.extend_from_slice(&[0xee]);
    let (rest, ace) = AccessAllowedAce::parse(&body).unwrap();
    assert_eq!(rest, &[0xee]);
    assert_eq!(ace.mask, 0x000f_01bd);
    assert_eq!(ace.sid.sub_authority, vec![32, 544]);
    assert_eq!(AccessAllowedAce::parse(&body[..3]).unwrap_err(), DecodeError::TruncatedInput);
    assert_eq!(AccessAllowedAce::parse(&body[..19]).unwrap_err(), DecodeError::TruncatedInput);
}

#[test]
fn simple_entry_scenario() {
    let bytes = [
        0x00, 0x12, 0x18, 0x00, 0xbd, 0x01, 0x0f, 0x00, 0x01, 0x02, 0x00, 0x00, 0x00, 0x00, 0x00,
        0x05, 0x20, 0x00, 0x00, 0x00, 0x20, 0x02, 0x00, 0x00,
    ];
    let (rest, ace) = Ace::parse(&bytes).unwrap();
    assert!(rest.is_empty());
    assert_eq!(ace.ace_type, 0);
    assert_eq!(ace.ace_flags, 0x12);
    assert_eq!(ace.ace_size, 0x18);
    assert!(ace.is_exact());
    match &ace.data {
        AceFormat::AceAllowed(body) => {
            assert_eq!(body.mask, 0x000f_01bd);
            assert_eq!(body.sid.revision, 1);
            assert_eq!(body.sid.sub_authority_count, 2);
            assert_eq!(body.sid.identifier_authority.value, vec![0, 0, 0, 0, 0, 5]);
            assert_eq!(body.sid.sub_authority, vec![32, 544]);
        }
        other => panic!("unexpected body {:?}", other),
    }
}

#[test]
fn object_entry_scenario() {
    let bytes = [
        0x05, 0x12, 0x2c, 0x00, 0x94, 0x00, 0x02, 0x00, 0x02, 0x00, 0x00, 0x00, 0xba, 0x7a, 0x96,
        0xbf, 0xe6, 0x0d, 0xd0, 0x11, 0xa2, 0x85, 0x00, 0xaa, 0x00, 0x30, 0x49, 0xe2, 0x01, 0x02,
        0x00, 0x00, 0x00, 0x00, 0x00, 0x05, 0x20, 0x00, 0x00, 0x00, 0x2a, 0x02, 0x00, 0x00,
    ];
    let (rest, ace) = Ace::parse(&bytes).unwrap();
    assert!(rest.is_empty());
    assert_eq!(ace.ace_type, 5);
    assert_eq!(ace.ace_size, 0x2c);
    assert!(ace.is_exact());
    match &ace.data {
        AceFormat::AceObjectAllowed(body) => {
            assert_eq!(body.mask, 0x0002_0094);
            assert_eq!(body.flags.bits(), 2);
            assert_eq!(body.object_type, None);
            assert_eq!(body.inherited_object_type, Some(GUID_A));
            assert_eq!(body.sid.sub_authority_count, 2);
            assert_eq!(body.sid.sub_authority, vec![32, 554]);
        }
        other => panic!("unexpected body {:?}", other),
    }
}

#[test]
fn object_body_holds_a_guid_exactly_when_its_bit_is_set() {
    let sid = builtin_admins();
    for flags in [0u32, 1, 2, 3, 0x8000_0000, 0x8000_0001, 0xffff_fffe, 0xffff_ffff] {
        let body = object_body(0x94, flags, &sid);
        let (rest, ace) = AccessAllowedObjectAce::parse(&body).unwrap();
        assert!(rest.is_empty());
        assert_eq!(ace.mask, 0x94);
        assert_eq!(ace.flags.bits(), flags);
        assert_eq!(ace.object_type.is_some(), flags & 1 != 0);
        assert_eq!(ace.inherited_object_type.is_some(), flags & 2 != 0);
        if flags & 1 != 0 {
            assert_eq!(ace.object_type, Some(GUID_A));
        }
        if flags & 2 != 0 {
            assert_eq!(ace.inherited_object_type, Some(GUID_B));
        }
        assert_eq!(ace.sid.sub_authority, vec![32, 544]);
    }
}

#[test]
fn object_body_without_guids_starts_its_sid_at_eight() {
    let sid = builtin_admins();
    assert_eq!(object_body(1, 0, &sid).len(), 8 + 16);
    assert_eq!(object_body(1, 1, &sid).len(), 8 + 16 + 16);
    assert_eq!(object_body(1, 2, &sid).len(), 8 + 16 + 16);
    assert_eq!(object_body(1, 3, &sid).len(), 8 + 32 + 16);
    let body = object_body(1, 0, &sid);
    let ace = AccessAllowedObjectAce::parse(&body).unwrap().1;
    assert_eq!(ace.sid, LdapSid::parse(&body[8..]).unwrap().1);
    let body = object_body(1, 3, &sid);
    let ace = AccessAllowedObjectAce::parse(&body).unwrap().1;
    assert_eq!(ace.sid, LdapSid::parse(&body[40..]).unwrap().1);
}

#[test]
fn object_body_cut_inside_a_guid_is_truncated() {
    let body = object_body(0x94, 3, &builtin_admins());
    assert_eq!(body.len(), 56);
    for cut in 0..56 {
        assert_eq!(
            AccessAllowedObjectAce::parse(&body[..cut]).unwrap_err(),
            DecodeError::TruncatedInput
        );
    }
    assert!(AccessAllowedObjectAce::parse(&body).is_ok());
}

#[test]
fn payload_follows_the_dispatch_table() {
    let mut simple = vec![1, 0, 0, 0];
    simple.extend_from_slice(&builtin_admins());
    let object = object_body(2, 1, &builtin_admins());
    for ace_type in [ACCESS_ALLOWED_ACE_TYPE, ACCESS_DENIED_ACE_TYPE] {
        let (rest, data) = AceFormat::parse(&simple, ace_type).unwrap();
        assert_eq!(rest, &simple[..]);
        assert!(matches!(data, AceFormat::AceAllowed(_)));
    }
    for ace_type in [ACCESS_ALLOWED_OBJECT_ACE_TYPE, ACCESS_DENIED_OBJECT_ACE_TYPE] {
        let (rest, data) = AceFormat::parse(&object, ace_type).unwrap();
        assert_eq!(rest, &object[..]);
        assert!(matches!(data, AceFormat::AceObjectAllowed(_)));
    }
    assert_eq!(ACCESS_ALLOWED_ACE_TYPE, 0);
    assert_eq!(ACCESS_DENIED_ACE_TYPE, 1);
    assert_eq!(ACCESS_ALLOWED_OBJECT_ACE_TYPE, 5);
    assert_eq!(ACCESS_DENIED_OBJECT_ACE_TYPE, 6);
}

#[test]
fn payload_of_an_unknown_type_keeps_its_bytes() {
    let body = [0xde, 0xad, 0xbe, 0xef, 0x00];
    for ace_type in [2u8, 3, 4, 7, 9, 0x11, 0xff] {
        let (rest, data) = AceFormat::parse(&body, ace_type).unwrap();
        assert_eq!(rest, &body);
        assert_eq!(data, AceFormat::Unrecognized(body.to_vec()));
    }
    let (_, data) = AceFormat::parse(&[], 7).unwrap();
    assert_eq!(data, AceFormat::Unrecognized(vec![]));
}

#[test]
fn payload_of_a_known_type_can_be_truncated() {
    assert_eq!(AceFormat::parse(&[1, 2, 3], 0).unwrap_err(), DecodeError::TruncatedInput);
    assert_eq!(AceFormat::parse(&[1, 2, 3, 4, 1, 0], 1).unwrap_err(), DecodeError::TruncatedInput);
    assert_eq!(AceFormat::parse(&[0; 7], 5).unwrap_err(), DecodeError::TruncatedInput);
    assert_eq!(
        AceFormat::parse(&[0, 0, 0, 0, 1, 0, 0, 0, 9, 9], 6).unwrap_err(),
        DecodeError::TruncatedInput
    );
}

#[test]
fn getters_answer_for_every_variant() {
    let mut simple = vec![0xbd, 0x01, 0x0f, 0x00];
    simple.extend_from_slice(&builtin_admins());
    let simple = AceFormat::parse(&simple, 0).unwrap().1;
    let object = AceFormat::parse(&object_body(0x94, 3, &builtin_admins()), 5).unwrap().1;
    let half = AceFormat::parse(&object_body(0x95, 2, &builtin_admins()), 6).unwrap().1;
    let raw = AceFormat::Unrecognized(vec![1, 2, 3]);
    let sid = LdapSid::parse(&builtin_admins()).unwrap().1;

    assert_eq!(AceFormat::get_mask(simple.clone()), Some(0x000f_01bd));
    assert_eq!(AceFormat::get_mask(object.clone()), Some(0x94));
    assert_eq!(AceFormat::get_mask(raw.clone()), None);

    assert_eq!(AceFormat::get_sid(simple.clone()), Some(sid.clone()));
    assert_eq!(AceFormat::get_sid(object.clone()), Some(sid.clone()));
    assert_eq!(AceFormat::get_sid(raw.clone()), None);

    assert_eq!(AceFormat::get_flags(simple.clone()), None);
    assert_eq!(AceFormat::get_flags(object.clone()), Some(ObjectAceFlags { bits: 3 }));
    assert_eq!(AceFormat::get_flags(raw.clone()), None);

    assert_eq!(AceFormat::get_object_type(simple.clone()), None);
    assert_eq!(AceFormat::get_object_type(object.clone()), Some(GUID_A));
    assert_eq!(AceFormat::get_object_type(half.clone()), None);
    assert_eq!(AceFormat::get_object_type(raw.clone()), None);

    assert_eq!(AceFormat::get_inherited_object_type(simple), None);
    assert_eq!(AceFormat::get_inherited_object_type(object), Some(GUID_B));
    assert_eq!(AceFormat::get_inherited_object_type(half), Some(GUID_B));
    assert_eq!(AceFormat::get_inherited_object_type(raw), None);
}

#[test]
fn payload_lengths() {
    let mut simple = vec![0, 0, 0, 0];
    simple.extend_from_slice(&builtin_admins());
    assert_eq!(AceFormat::parse(&simple, 0).unwrap().1.encoded_len(), 20);
    for (flags, len) in [(0u32, 24usize), (1, 40), (2, 40), (3, 56)] {
        let body = object_body(0, flags, &builtin_admins());
        assert_eq!(AceFormat::parse(&body, 5).unwrap().1.encoded_len(), len);
    }
    assert_eq!(AceFormat::Unrecognized(vec![0; 11]).encoded_len(), 11);
}

#[test]
fn entry_of_an_unknown_type_keeps_its_body() {
    let mut bytes = entry(0x09, 0x40, &[1, 2, 3, 4, 5, 6]);
    bytes.extend_from_slice(&[0xaa, 0xbb]);
    let (rest, ace) = Ace::parse(&bytes).unwrap();
    assert_eq!(rest, &[0xaa, 0xbb]);
    assert_eq!(
        ace,
        Ace {
            ace_type: 0x09,
            ace_flags: 0x40,
            ace_size: 10,
            data: AceFormat::Unrecognized(vec![1, 2, 3, 4, 5, 6]),
        }
    );
    assert!(ace.is_exact());
}

#[test]
fn entry_of_an_unknown_type_may_have_no_body() {
    let bytes = [0x0b, 0x00, 0x04, 0x00];
    let (rest, ace) = Ace::parse(&bytes).unwrap();
    assert!(rest.is_empty());
    assert_eq!(ace.data, AceFormat::Unrecognized(vec![]));
}

#[test]
fn entry_size_below_the_header_is_invalid() {
    for size in 0u8..4 {
        let bytes = [0x00, 0x00, size, 0x00, 1, 2, 3, 4, 5, 6, 7, 8];
        assert_eq!(Ace::parse(&bytes).unwrap_err(), DecodeError::InvalidAceSize);
        let bytes = [0x09, 0x00, size, 0x00];
        assert_eq!(Ace::parse(&bytes).unwrap_err(), DecodeError::InvalidAceSize);
    }
}

#[test]
fn entry_cut_inside_its_header_is_truncated() {
    let mut body = vec![0xbd, 0x01, 0x0f, 0x00];
    body.extend_from_slice(&builtin_admins());
    let bytes = entry(0, 0x12, &body);
    assert_eq!(bytes.len(), 24);
    for cut in 0..24 {
        assert_eq!(Ace::parse(&bytes[..cut]).unwrap_err(), DecodeError::TruncatedInput);
    }
    assert!(Ace::parse(&bytes).is_ok());
}

#[test]
fn entry_size_uses_both_of_its_bytes() {
    let body = vec![0x5a; 0x1234 - 4];
    let bytes = entry(0x20, 0, &body);
    assert_eq!(&bytes[2..4], &[0x34, 0x12]);
    let (rest, ace) = Ace::parse(&bytes).unwrap();
    assert!(rest.is_empty());
    assert_eq!(ace.ace_size, 0x1234);
    assert_eq!(ace.data, AceFormat::Unrecognized(body));
}

#[test]
fn entry_body_never_reaches_into_the_next_entry() {
    let mut body = vec![0xbd, 0x01, 0x0f, 0x00];
    body.extend_from_slice(&builtin_admins());
    let mut bytes = entry(0, 0, &body[..12]);
    bytes.extend_from_slice(&body[12..]);
    bytes.extend_from_slice(&[0; 32]);
    assert_eq!(Ace::parse(&bytes).unwrap_err(), DecodeError::TruncatedInput);
}

#[test]
fn entry_may_hold_bytes_behind_its_sid() {
    let mut body = vec![0xbd, 0x01, 0x0f, 0x00];
    body.extend_from_slice(&builtin_admins());
    body.extend_from_slice(&[0, 0, 0, 0]);
    let bytes = entry(1, 0, &body);
    let (rest, ace) = Ace::parse(&bytes).unwrap();
    assert!(rest.is_empty());
    assert_eq!(ace.ace_size, 28);
    assert_eq!(AceFormat::get_mask(ace.data.clone()), Some(0x000f_01bd));
    assert!(!ace.is_exact());
}

#[test]
fn list_header_and_entries() {
    let mut simple = vec![0xbd, 0x01, 0x0f, 0x00];
    simple.extend_from_slice(&builtin_admins());
    let entries = vec![
        entry(0, 0x12, &simple),
        entry(5, 0x02, &object_body(0x94, 2, &builtin_admins())),
        entry(1, 0x00, &simple),
    ];
    let mut bytes = list(&entries);
    bytes.extend_from_slice(&[0xfe]);
    let (rest, acl) = Acl::parse(&bytes).unwrap();
    assert_eq!(rest, &[0xfe]);
    assert_eq!(acl.acl_revision, 2);
    assert_eq!(acl.sbz1, 0);
    assert_eq!(acl.acl_size as usize, bytes.len() - 1);
    assert_eq!(acl.ace_count, 3);
    assert_eq!(acl.sbz2, 0);
    assert_eq!(acl.data.len(), 3);
    for (ace, raw) in acl.data.iter().zip(entries.iter()) {
        assert_eq!(ace, &Ace::parse(raw).unwrap().1);
    }
    assert_eq!(acl.check_strict(), Ok(()));
}

#[test]
fn list_header_fields_are_little_endian() {
    let bytes = [4, 0x11, 0x34, 0x12, 0, 0, 0x78, 0x56, 0xff];
    let (rest, acl) = Acl::parse(&bytes).unwrap();
    assert_eq!(rest, &[0xff]);
    assert_eq!(acl.acl_revision, 4);
    assert_eq!(acl.sbz1, 0x11);
    assert_eq!(acl.acl_size, 0x1234);
    assert_eq!(acl.ace_count, 0);
    assert_eq!(acl.sbz2, 0x5678);
    assert!(acl.data.is_empty());
}

#[test]
fn list_with_an_unknown_entry_still_decodes_the_others() {
    let mut simple = vec![0xbd, 0x01, 0x0f, 0x00];
    simple.extend_from_slice(&builtin_admins());
    let entries = vec![
        entry(0, 0, &simple),
        entry(0x0d, 0, &[9, 9, 9, 9, 9]),
        entry(6, 0, &object_body(1, 3, &builtin_admins())),
    ];
    let bytes = list(&entries);
    let (rest, acl) = Acl::parse(&bytes).unwrap();
    assert!(rest.is_empty());
    assert_eq!(acl.data.len(), 3);
    assert!(matches!(acl.data[0].data, AceFormat::AceAllowed(_)));
    assert_eq!(acl.data[1].data, AceFormat::Unrecognized(vec![9, 9, 9, 9, 9]));
    assert!(matches!(acl.data[2].data, AceFormat::AceObjectAllowed(_)));
}

#[test]
fn list_that_counts_more_entries_than_it_holds_is_truncated() {
    let mut simple = vec![0xbd, 0x01, 0x0f, 0x00];
    simple.extend_from_slice(&builtin_admins());
    let mut bytes = list(&[entry(0, 0, &simple), entry(1, 0, &simple)]);
    bytes[4] = 3;
    assert_eq!(Acl::parse(&bytes).unwrap_err(), DecodeError::TruncatedInput);
}

#[test]
fn list_reports_the_error_of_its_first_bad_entry() {
    let mut simple = vec![0xbd, 0x01, 0x0f, 0x00];
    simple.extend_from_slice(&builtin_admins());
    let mut bad = entry(0, 0, &simple);
    bad[2] = 2;
    let bytes = list(&[entry(0, 0, &simple), bad, entry(1, 0, &simple)]);
    assert_eq!(Acl::parse(&bytes).unwrap_err(), DecodeError::InvalidAceSize);
}

#[test]
fn list_decodes_whatever_size_it_declares() {
    let mut simple = vec![0xbd, 0x01, 0x0f, 0x00];
    simple.extend_from_slice(&builtin_admins());
    let mut bytes = list(&[entry(0, 0, &simple)]);
    bytes[2] = 0xff;
    bytes[3] = 0x7f;
    let (rest, acl) = Acl::parse(&bytes).unwrap();
    assert!(rest.is_empty());
    assert_eq!(acl.acl_size, 0x7fff);
    assert_eq!(acl.data.len(), 1);
    assert!(!acl.sizes_add_up());
    assert!(acl.data[0].is_exact());
    assert_eq!(acl.check_strict(), Err(DecodeError::InconsistentLength));
    assert_eq!(Acl::parse_strict(&bytes).unwrap_err(), DecodeError::InconsistentLength);
}

#[test]
fn strict_check_wants_sizes_that_add_up() {
    let mut simple = vec![0xbd, 0x01, 0x0f, 0x00];
    simple.extend_from_slice(&builtin_admins());
    let good = list(&[entry(0, 0, &simple), entry(7, 0, &[1, 2])]);
    assert_eq!(good.len(), 8 + 24 + 6);
    assert!(Acl::parse_strict(&good).is_ok());
    for wrong in [0u8, 7, 37, 39] {
        let mut bytes = good.clone();
        bytes[2] = wrong;
        assert!(Acl::parse(&bytes).is_ok());
        assert_eq!(Acl::parse_strict(&bytes).unwrap_err(), DecodeError::InconsistentLength);
    }
}

#[test]
fn strict_check_wants_exact_entries() {
    let mut padded = vec![0xbd, 0x01, 0x0f, 0x00];
    padded.extend_from_slice(&builtin_admins());
    padded.extend_from_slice(&[0, 0, 0, 0]);
    let bytes = list(&[entry(0, 0, &padded)]);
    let acl = Acl::parse(&bytes).unwrap().1;
    assert_eq!(acl.acl_size as usize, 8 + 28);
    assert!(acl.sizes_add_up());
    assert_eq!(acl.check_strict(), Err(DecodeError::InconsistentLength));
}

#[test]
fn strict_check_of_an_empty_list() {
    let bytes = [2, 0, 8, 0, 0, 0, 0, 0];
    let (rest, acl) = Acl::parse_strict(&bytes).unwrap();
    assert!(rest.is_empty());
    assert!(acl.data.is_empty());
    let bytes = [2, 0, 9, 0, 0, 0, 0, 0];
    assert_eq!(Acl::parse_strict(&bytes).unwrap_err(), DecodeError::InconsistentLength);
}

#[test]
fn strict_parse_passes_decode_errors_on() {
    assert_eq!(Acl::parse_strict(&[2, 0, 8]).unwrap_err(), DecodeError::TruncatedInput);
    let bytes = [2, 0, 12, 0, 1, 0, 0, 0, 0, 0, 1, 0];
    assert_eq!(Acl::parse_strict(&bytes).unwrap_err(), DecodeError::InvalidAceSize);
}

#[test]
fn lists_at_different_offsets_do_not_affect_each_other() {
    let good = list(&[entry(7, 0, &[1])]);
    let mut blob = vec![0xff, 0xff, 0xff];
    let bad_at = blob.len();
    blob.extend_from_slice(&[2, 0, 12, 0, 1, 0, 0, 0, 0, 0, 1, 0]);
    let good_at = blob.len();
    blob.extend_from_slice(&good);
    assert_eq!(Acl::parse(&blob[bad_at..]).unwrap_err(), DecodeError::InvalidAceSize);
    let (rest, acl) = Acl::parse(&blob[good_at..]).unwrap();
    assert!(rest.is_empty());
    assert_eq!(acl.data[0].data, AceFormat::Unrecognized(vec![1]));
}
