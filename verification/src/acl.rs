//! Access control lists: an eight-byte header and the entries it counts.

use crate::ace::{Ace, AceView};
use crate::error::DecodeError;
use crate::wire::{le_u16_at, read_u16, read_u8};
use vstd::prelude::*;

verus! {

/// An access control list.
#[derive(Clone, Debug, PartialEq, Eq)]
pub struct Acl {
    pub acl_revision: u8,
    pub sbz1: u8,
    pub acl_size: u16,
    pub ace_count: u16,
    pub sbz2: u16,
    pub data: Vec<Ace>,
}

/// What an [`Acl`] holds, as mathematics.
#[verifier::ext_equal]
pub struct AclView {
    pub acl_revision: u8,
    pub sbz1: u8,
    pub acl_size: u16,
    pub ace_count: u16,
    pub sbz2: u16,
    pub data: Seq<AceView>,
}

impl AclView {
    /// The list holds as many entries as the header counts, each well formed.
    pub open spec fn wf(self) -> bool {
        &&& self.data.len() == self.ace_count
        &&& forall|k: int| 0 <= k < self.data.len() ==> (#[trigger] self.data[k]).wf()
    }

    /// The declared size of the list is its header and the declared sizes of
    /// its entries.
    pub open spec fn sizes_add_up(self) -> bool {
        self.acl_size == 8 + declared_sizes(self.data)
    }

    /// What the strict check asks for: the sizes add up, and every entry is
    /// exact.
    pub open spec fn is_consistent(self) -> bool {
        &&& self.sizes_add_up()
        &&& forall|k: int| 0 <= k < self.data.len() ==> (#[trigger] self.data[k]).is_exact()
    }
}

/// The sum of the sizes that the entries declare.
pub open spec fn declared_sizes(aces: Seq<AceView>) -> int
    decreases aces.len(),
{
    if aces.len() == 0 {
        0
    } else {
        declared_sizes(aces.drop_last()) + aces.last().ace_size
    }
}

/// The declared sizes of the first `k` entries never exceed those of all.
pub proof fn lemma_declared_sizes_grow(aces: Seq<AceView>, k: int)
    requires
        0 <= k <= aces.len(),
    ensures
        0 <= declared_sizes(aces.take(k)) <= declared_sizes(aces),
    decreases aces.len(),
{
    if k == aces.len() {
        assert(aces.take(k) == aces);
        if k > 0 {
            lemma_declared_sizes_grow(aces.drop_last(), k - 1);
            assert(aces.drop_last().take(k - 1) == aces.drop_last());
        }
    } else {
        lemma_declared_sizes_grow(aces.drop_last(), k);
        assert(aces.drop_last().take(k) == aces.take(k));
    }
}

/// The views of the entries of `v`, in order.
pub open spec fn ace_views(v: Seq<Ace>) -> Seq<AceView> {
    v.map_values(|a: Ace| a@)
}

impl View for Acl {
    type V = AclView;

    open spec fn view(&self) -> AclView {
        AclView {
            acl_revision: self.acl_revision,
            sbz1: self.sbz1,
            acl_size: self.acl_size,
            ace_count: self.ace_count,
            sbz2: self.sbz2,
            data: ace_views(self.data@),
        }
    }
}

/// What the head of `s` means as `n` entries in a row, each starting where
/// the one before it ended, and how many bytes they take together. The first
/// entry that fails decides the error.
pub open spec fn decode_aces(s: Seq<u8>, n: nat) -> Result<(Seq<AceView>, int), DecodeError>
    decreases n,
{
    if n == 0 {
        Ok((Seq::empty(), 0))
    } else {
        match decode_aces(s, (n - 1) as nat) {
            Ok((front, used)) => match Ace::decode(s.skip(used)) {
                Ok((ace, size)) => Ok((front.push(ace), used + size)),
                Err(e) => Err(e),
            },
            Err(e) => Err(e),
        }
    }
}

/// Once `k` entries fail, so does any greater number, with the same error.
pub proof fn lemma_decode_aces_error_stays(s: Seq<u8>, k: nat, n: nat)
    requires
        k <= n,
        decode_aces(s, k) is Err,
    ensures
        decode_aces(s, n) == decode_aces(s, k),
    decreases n,
{
    if k < n {
        lemma_decode_aces_error_stays(s, k, (n - 1) as nat);
    }
}

/// Entries that decode stay within the input, and there are as many as asked
/// for.
pub proof fn lemma_decode_aces_bounds(s: Seq<u8>, n: nat)
    requires
        decode_aces(s, n) is Ok,
    ensures
        decode_aces(s, n)->Ok_0.0.len() == n,
        0 <= decode_aces(s, n)->Ok_0.1 <= s.len(),
    decreases n,
{
    if n > 0 {
        lemma_decode_aces_bounds(s, (n - 1) as nat);
    }
}

impl Acl {
    /// The list holds as many entries as the header counts, each well formed.
    pub open spec fn wf(&self) -> bool {
        self@.wf()
    }

    /// What the head of `s` means as a list, and how many bytes that takes:
    /// the header, then as many entries as the header counts. The declared
    /// size is reported and not enforced.
    pub open spec fn decode(s: Seq<u8>) -> Result<(AclView, int), DecodeError> {
        if s.len() < 8 {
            Err(DecodeError::TruncatedInput)
        } else {
            match decode_aces(s.skip(8), le_u16_at(s, 4) as nat) {
                Ok((data, used)) => Ok(
                    (
                        AclView {
                            acl_revision: s[0],
                            sbz1: s[1],
                            acl_size: le_u16_at(s, 2),
                            ace_count: le_u16_at(s, 4),
                            sbz2: le_u16_at(s, 6),
                            data,
                        },
                        8 + used,
                    ),
                ),
                Err(e) => Err(e),
            }
        }
    }

    /// Reads a list from the head of `i` and hands out the bytes behind its
    /// last entry.
    pub fn parse(i: &[u8]) -> (r: Result<(&[u8], Acl), DecodeError>)
        ensures
            match r {
                Ok((rest, acl)) => Self::decode(i@) == Ok::<_, DecodeError>(
                    (acl@, i@.len() - rest@.len()),
                ) && rest@ == i@.skip(i@.len() - rest@.len()) && rest@.len() <= i@.len() - 8
                    && acl.data@.len() == acl.ace_count && acl.wf(),
                Err(e) => Self::decode(i@) == Err::<(AclView, int), _>(e),
            },
    {
        let (i1, acl_revision) = match read_u8(i) {
            Ok(p) => p,
            Err(e) => return Err(e),
        };
        let (i2, sbz1) = match read_u8(i1) {
            Ok(p) => p,
            Err(e) => return Err(e),
        };
        let (i3, acl_size) = match read_u16(i2) {
            Ok(p) => p,
            Err(e) => return Err(e),
        };
        let (i4, ace_count) = match read_u16(i3) {
            Ok(p) => p,
            Err(e) => return Err(e),
        };
        let (i5, sbz2) = match read_u16(i4) {
            Ok(p) => p,
            Err(e) => return Err(e),
        };
        assert(i2@ == i@.skip(2));
        assert(i3@ == i@.skip(4));
        assert(i4@ == i@.skip(6));
        assert(i5@ == i@.skip(8));
        assert(i2@.subrange(0, 2) == i@.subrange(2, 4));
        assert(i3@.subrange(0, 2) == i@.subrange(4, 6));
        assert(i4@.subrange(0, 2) == i@.subrange(6, 8));
        let ghost body = i@.skip(8);
        let mut data: Vec<Ace> = Vec::new();
        let mut cur = i5;
        let mut k: u16 = 0;
        let ghost mut used: int = 0;
        assert(ace_views(data@) == Seq::<AceView>::empty());
        while k < ace_count
            invariant
                k <= ace_count,
                body == i@.skip(8),
                i@.len() >= 8,
                ace_count == le_u16_at(i@, 4),
                0 <= used <= body.len(),
                cur@ == body.skip(used),
                data@.len() == k,
                decode_aces(body, k as nat) == Ok::<_, DecodeError>((ace_views(data@), used)),
                forall|j: int| 0 <= j < data@.len() ==> (#[trigger] data@[j]).wf(),
            decreases ace_count - k,
        {
            match Ace::parse(cur) {
                Ok((rest, ace)) => {
                    proof {
                        assert(ace_views(data@.push(ace)) == ace_views(data@).push(ace@));
                        assert(rest@ == body.skip(used + ace.ace_size));
                        used = used + ace.ace_size;
                    }
                    data.push(ace);
                    cur = rest;
                    k = k + 1;
                },
                Err(e) => {
                    proof {
                        assert(decode_aces(body, (k + 1) as nat) == Err::<(Seq<AceView>, int), _>(
                            e,
                        ));
                        lemma_decode_aces_error_stays(body, (k + 1) as nat, ace_count as nat);
                    }
                    return Err(e);
                },
            }
        }
        let acl = Acl { acl_revision, sbz1, acl_size, ace_count, sbz2, data };
        proof {
            assert(cur@ == i@.skip(8 + used));
            assert(acl@ =~= Self::decode(i@)->Ok_0.0);
            assert forall|j: int| 0 <= j < acl@.data.len() implies (#[trigger] acl@.data[j]).wf() by {
                assert(acl.data@[j].wf());
            }
        }
        Ok((cur, acl))
    }

    /// Whether the declared size of the list is its header and the declared
    /// sizes of its entries.
    pub fn sizes_add_up(&self) -> (r: bool)
        ensures
            r == self@.sizes_add_up(),
    {
        let ghost views = self@.data;
        proof {
            lemma_declared_sizes_grow(views, 0);
        }
        if self.acl_size < 8 {
            return false;
        }
        let mut total: u32 = 8;
        let mut k: usize = 0;
        while k < self.data.len()
            invariant
                k <= self.data.len(),
                views == ace_views(self.data@),
                total == 8 + declared_sizes(views.take(k as int)),
                total <= self.acl_size,
            decreases self.data.len() - k,
        {
            proof {
                assert(views.take(k + 1).drop_last() == views.take(k as int));
                lemma_declared_sizes_grow(views, k + 1);
            }
            total = total + self.data[k].ace_size as u32;
            if total > self.acl_size as u32 {
                return false;
            }
            k = k + 1;
        }
        proof {
            assert(views.take(k as int) == views);
        }
        total == self.acl_size as u32
    }

    /// The strict check on a decoded list: fails with `InconsistentLength`
    /// unless the sizes add up and every entry is exact.
    pub fn check_strict(&self) -> (r: Result<(), DecodeError>)
        ensures
            r is Ok <==> self@.is_consistent(),
            r is Err ==> r == Err::<(), _>(DecodeError::InconsistentLength),
    {
        if !self.sizes_add_up() {
            return Err(DecodeError::InconsistentLength);
        }
        let ghost views = self@.data;
        let mut k: usize = 0;
        while k < self.data.len()
            invariant
                k <= self.data.len(),
                views == ace_views(self.data@),
                forall|j: int| 0 <= j < k ==> (#[trigger] views[j]).is_exact(),
            decreases self.data.len() - k,
        {
            assert(views[k as int] == self.data@[k as int]@);
            if !self.data[k].is_exact() {
                return Err(DecodeError::InconsistentLength);
            }
            k = k + 1;
        }
        Ok(())
    }

    /// Reads a list as [`Acl::parse`] does and then applies the strict check.
    pub fn parse_strict(i: &[u8]) -> (r: Result<(&[u8], Acl), DecodeError>)
        ensures
            match r {
                Ok((rest, acl)) => Self::decode(i@) == Ok::<_, DecodeError>(
                    (acl@, i@.len() - rest@.len()),
                ) && rest@ == i@.skip(i@.len() - rest@.len()) && rest@.len() <= i@.len() - 8
                    && acl.wf() && acl@.is_consistent(),
                Err(e) => match Self::decode(i@) {
                    Ok((view, _)) => e == DecodeError::InconsistentLength && !view.is_consistent(),
                    Err(d) => e == d,
                },
            },
    {
        let (rest, acl) = match Acl::parse(i) {
            Ok(p) => p,
            Err(e) => return Err(e),
        };
        match acl.check_strict() {
            Ok(()) => Ok((rest, acl)),
            Err(e) => Err(e),
        }
    }
}

} // verus!
