//! What holds of the decoders on every input.

use crate::ace::{
    is_object_type, is_simple_type, AccessAllowedAce, AccessAllowedObjectAce, Ace, AceFormatView,
};
use crate::acl::{declared_sizes, decode_aces, lemma_decode_aces_bounds, Acl};
use crate::error::DecodeError;
use crate::sid::{encode_sub_authorities, LdapSid, SidView};
use crate::wire::{le_u16_at, le_u32_at, lemma_u32_le_round_trip, u32_le_bytes};
use vstd::prelude::*;

verus! {

/// Decoding the canonical bytes of a well-formed SID gives that SID back and
/// takes all of them.
pub proof fn lemma_sid_round_trip(sid: SidView)
    requires
        sid.wf(),
    ensures
        sid.encode().len() == sid.encoded_len(),
        LdapSid::decode(sid.encode()) == Ok::<_, DecodeError>((sid, sid.encoded_len())),
{
    lemma_sid_round_trip_before(sid, Seq::empty());
    assert(sid.encode() + Seq::<u8>::empty() == sid.encode());
}

/// The canonical bytes of a well-formed SID decode to that SID whatever bytes
/// follow them, and none of those is taken.
pub proof fn lemma_sid_round_trip_before(sid: SidView, tail: Seq<u8>)
    requires
        sid.wf(),
    ensures
        sid.encode().len() == sid.encoded_len(),
        LdapSid::decode(sid.encode() + tail) == Ok::<_, DecodeError>((sid, sid.encoded_len())),
{
    let s = sid.encode() + tail;
    let n = sid.sub_authority_count as int;
    assert(s.subrange(2, 8) == sid.identifier_authority);
    assert forall|k: int| 0 <= k < n implies le_u32_at(s, 8 + 4 * k) == sid.sub_authority[k] by {
        let word = s.subrange(8 + 4 * k, 8 + 4 * k + 4);
        assert forall|t: int| 0 <= t < 4 implies word[t] == u32_le_bytes(sid.sub_authority[k])[t] by {
            assert(word[t] == encode_sub_authorities(sid.sub_authority)[4 * k + t]);
            assert((4 * k + t) / 4 == k && (4 * k + t) % 4 == t);
        }
        assert(word == u32_le_bytes(sid.sub_authority[k]));
        lemma_u32_le_round_trip(sid.sub_authority[k]);
        assert(u32_le_bytes(sid.sub_authority[k]).subrange(0, 4) == word);
    }
    assert(LdapSid::decode(s)->Ok_0.0 =~= sid);
}

/// A SID that is cut anywhere before its end is reported as truncated.
pub proof fn lemma_sid_cut(s: Seq<u8>, j: int)
    requires
        LdapSid::decode(s) is Ok,
        0 <= j < LdapSid::decode(s)->Ok_0.1,
    ensures
        LdapSid::decode(s.take(j)) == Err::<(SidView, int), _>(DecodeError::TruncatedInput),
{
}

/// A SID is decoded from its own bytes alone: bytes behind it change nothing.
pub proof fn lemma_sid_prefix(s: Seq<u8>, j: int)
    requires
        LdapSid::decode(s) is Ok,
        LdapSid::decode(s)->Ok_0.1 <= j <= s.len(),
    ensures
        LdapSid::decode(s.take(j)) == LdapSid::decode(s),
{
    let t = s.take(j);
    assert(t.subrange(2, 8) == s.subrange(2, 8));
    let whole = LdapSid::decode(s)->Ok_0.0.sub_authority;
    let front = LdapSid::decode(t)->Ok_0.0.sub_authority;
    assert forall|k: int| 0 <= k < whole.len() implies front[k] == whole[k] by {
        assert(t.subrange(8 + 4 * k, 8 + 4 * k + 4) == s.subrange(8 + 4 * k, 8 + 4 * k + 4));
    }
    assert(LdapSid::decode(t)->Ok_0.0 =~= LdapSid::decode(s)->Ok_0.0);
}

/// The body of a plain entry that is cut anywhere before the end of its SID
/// is reported as truncated.
pub proof fn lemma_simple_body_cut(s: Seq<u8>, j: int)
    requires
        AccessAllowedAce::decode(s) is Ok,
        0 <= j < AccessAllowedAce::decode(s)->Ok_0.1,
    ensures
        AccessAllowedAce::decode(s.take(j)) is Err,
        AccessAllowedAce::decode(s.take(j))->Err_0 == DecodeError::TruncatedInput,
{
    if j >= 4 {
        assert(s.take(j).skip(4) == s.skip(4).take(j - 4));
        lemma_sid_cut(s.skip(4), j - 4);
    }
}

/// In the body of an object entry, each GUID is there exactly when its flag
/// bit is set, a GUID that is absent takes no bytes, and the SID stands
/// directly behind what is there.
pub proof fn lemma_object_body_layout(s: Seq<u8>)
    requires
        AccessAllowedObjectAce::decode(s) is Ok,
    ensures
        ({
            let (ace, n) = AccessAllowedObjectAce::decode(s)->Ok_0;
            &&& ace.object_type is Some <==> ace.flags.bits & 1 == 1
            &&& ace.inherited_object_type is Some <==> ace.flags.bits & 2 == 2
            &&& ace.wf()
            &&& n == ace.encoded_len()
            &&& ace.sid_offset() == AccessAllowedObjectAce::sid_offset(ace.flags)
            &&& LdapSid::decode(s.skip(ace.sid_offset())) == Ok::<_, DecodeError>(
                (ace.sid, ace.sid.encoded_len()),
            )
        }),
{
}

/// The body of an object entry that is cut anywhere before the end of its
/// SID, inside a GUID too, is reported as truncated.
pub proof fn lemma_object_body_cut(s: Seq<u8>, j: int)
    requires
        AccessAllowedObjectAce::decode(s) is Ok,
        0 <= j < AccessAllowedObjectAce::decode(s)->Ok_0.1,
    ensures
        AccessAllowedObjectAce::decode(s.take(j)) is Err,
        AccessAllowedObjectAce::decode(s.take(j))->Err_0 == DecodeError::TruncatedInput,
{
    if j >= 8 {
        let t = s.take(j);
        assert(t.subrange(4, 8) == s.subrange(4, 8));
        let o = AccessAllowedObjectAce::sid_offset(AccessAllowedObjectAce::decode(s)->Ok_0.0.flags);
        if j >= o {
            assert(t.skip(o) == s.skip(o).take(j - o));
            lemma_sid_cut(s.skip(o), j - o);
        }
    }
}

/// An entry whose type is none of the four known ones decodes whenever its
/// header and declared size fit, and keeps its body byte for byte.
pub proof fn lemma_unknown_type_is_kept(s: Seq<u8>)
    requires
        s.len() >= 4,
        !is_simple_type(s[0]),
        !is_object_type(s[0]),
        4 <= le_u16_at(s, 2) <= s.len(),
    ensures
        Ace::decode(s) is Ok,
        Ace::decode(s)->Ok_0.0.data == AceFormatView::Unrecognized(
            s.subrange(4, le_u16_at(s, 2) as int),
        ),
        Ace::decode(s)->Ok_0.1 == le_u16_at(s, 2),
{
}

/// An entry that is cut anywhere before the size it declares, inside its
/// header too, is reported as truncated.
pub proof fn lemma_ace_cut(s: Seq<u8>, j: int)
    requires
        Ace::decode(s) is Ok,
        0 <= j < Ace::decode(s)->Ok_0.1,
    ensures
        Ace::decode(s.take(j)) is Err,
        Ace::decode(s.take(j))->Err_0 == DecodeError::TruncatedInput,
{
    if j >= 4 {
        assert(s.take(j).subrange(2, 4) == s.subrange(2, 4));
    }
}

/// An entry is decoded from the bytes of its declared size alone: bytes
/// behind them change nothing, so no body reaches into the next entry.
pub proof fn lemma_ace_prefix(s: Seq<u8>, j: int)
    requires
        Ace::decode(s) is Ok,
        Ace::decode(s)->Ok_0.1 <= j <= s.len(),
    ensures
        Ace::decode(s.take(j)) == Ace::decode(s),
{
    let t = s.take(j);
    let size = le_u16_at(s, 2) as int;
    assert(t.subrange(2, 4) == s.subrange(2, 4));
    assert(t.subrange(4, size) == s.subrange(4, size));
}

/// Entries in a row are decoded from their own bytes alone.
pub proof fn lemma_decode_aces_prefix(s: Seq<u8>, n: nat, j: int)
    requires
        decode_aces(s, n) is Ok,
        decode_aces(s, n)->Ok_0.1 <= j <= s.len(),
    ensures
        decode_aces(s.take(j), n) == decode_aces(s, n),
    decreases n,
{
    if n > 0 {
        let m = (n - 1) as nat;
        let used = decode_aces(s, m)->Ok_0.1;
        lemma_decode_aces_bounds(s, m);
        lemma_decode_aces_prefix(s, m, j);
        assert(s.take(j).skip(used) == s.skip(used).take(j - used));
        lemma_ace_prefix(s.skip(used), j - used);
    }
}

/// Entries in a row that are cut anywhere before the end of the last one are
/// reported as truncated.
pub proof fn lemma_decode_aces_cut(s: Seq<u8>, n: nat, j: int)
    requires
        decode_aces(s, n) is Ok,
        0 <= j < decode_aces(s, n)->Ok_0.1,
    ensures
        decode_aces(s.take(j), n) is Err,
        decode_aces(s.take(j), n)->Err_0 == DecodeError::TruncatedInput,
    decreases n,
{
    if n > 0 {
        let m = (n - 1) as nat;
        let used = decode_aces(s, m)->Ok_0.1;
        lemma_decode_aces_bounds(s, m);
        lemma_decode_aces_bounds(s, n);
        if j < used {
            lemma_decode_aces_cut(s, m, j);
        } else {
            lemma_decode_aces_prefix(s, m, j);
            assert(s.take(j).skip(used) == s.skip(used).take(j - used));
            lemma_ace_cut(s.skip(used), j - used);
        }
    }
}

/// A list holds exactly as many entries as its header counts.
pub proof fn lemma_acl_count(s: Seq<u8>)
    requires
        Acl::decode(s) is Ok,
    ensures
        Acl::decode(s)->Ok_0.0.data.len() == Acl::decode(s)->Ok_0.0.ace_count,
        8 <= Acl::decode(s)->Ok_0.1 <= s.len(),
{
    lemma_decode_aces_bounds(s.skip(8), le_u16_at(s, 4) as nat);
}

/// A list that is cut anywhere before the end of its last entry, inside its
/// header too, is reported as truncated.
pub proof fn lemma_acl_cut(s: Seq<u8>, j: int)
    requires
        Acl::decode(s) is Ok,
        0 <= j < Acl::decode(s)->Ok_0.1,
    ensures
        Acl::decode(s.take(j)) is Err,
        Acl::decode(s.take(j))->Err_0 == DecodeError::TruncatedInput,
{
    if j >= 8 {
        let t = s.take(j);
        lemma_acl_count(s);
        assert(t.subrange(4, 6) == s.subrange(4, 6));
        assert(t.skip(8) == s.skip(8).take(j - 8));
        lemma_decode_aces_cut(s.skip(8), le_u16_at(s, 4) as nat, j - 8);
    }
}

/// Entries in a row take exactly the sum of the sizes they declare.
pub proof fn lemma_decode_aces_consumed(s: Seq<u8>, n: nat)
    requires
        decode_aces(s, n) is Ok,
    ensures
        decode_aces(s, n)->Ok_0.1 == declared_sizes(decode_aces(s, n)->Ok_0.0),
    decreases n,
{
    if n > 0 {
        let m = (n - 1) as nat;
        lemma_decode_aces_consumed(s, m);
        let front = decode_aces(s, m)->Ok_0.0;
        let all = decode_aces(s, n)->Ok_0.0;
        assert(all.drop_last() == front);
    }
}

/// A list takes its header and the sizes that its entries declare, so a list
/// that passes the strict check takes exactly the size it declares.
pub proof fn lemma_acl_consumed(s: Seq<u8>)
    requires
        Acl::decode(s) is Ok,
    ensures
        Acl::decode(s)->Ok_0.1 == 8 + declared_sizes(Acl::decode(s)->Ok_0.0.data),
        Acl::decode(s)->Ok_0.0.is_consistent() ==> Acl::decode(s)->Ok_0.1 == Acl::decode(
            s,
        )->Ok_0.0.acl_size,
{
    lemma_decode_aces_consumed(s.skip(8), le_u16_at(s, 4) as nat);
}

} // verus!
