//! Little-endian integers on the wire, read with `nom`.

use crate::error::DecodeError;
use vstd::prelude::*;

verus! {

/// `nom::Err`, the error side of every `nom` parser. Its content is never read.
#[verifier::external_type_specification]
#[verifier::external_body]
#[verifier::reject_recursive_types(E)]
pub struct ExNomErr<E>(nom::Err<E>);

/// `nom::error::Error`, the default error payload of `nom`.
#[verifier::external_type_specification]
#[verifier::external_body]
#[verifier::reject_recursive_types(I)]
pub struct ExNomError<I>(nom::error::Error<I>);

/// The number that `s` spells in little-endian order: the first byte counts
/// least.
pub open spec fn le_nat(s: Seq<u8>) -> nat
    decreases s.len(),
{
    if s.len() == 0 {
        0
    } else {
        s[0] as nat + 256 * le_nat(s.drop_first())
    }
}

/// The 16-bit little-endian value of the two bytes of `s` that start at `at`.
pub open spec fn le_u16_at(s: Seq<u8>, at: int) -> u16 {
    le_nat(s.subrange(at, at + 2)) as u16
}

/// The 32-bit little-endian value of the four bytes of `s` that start at `at`.
pub open spec fn le_u32_at(s: Seq<u8>, at: int) -> u32 {
    le_nat(s.subrange(at, at + 4)) as u32
}

/// The 128-bit little-endian value of the sixteen bytes of `s` that start at
/// `at`.
pub open spec fn le_u128_at(s: Seq<u8>, at: int) -> u128 {
    le_nat(s.subrange(at, at + 16)) as u128
}

/// The four bytes that spell `v` in little-endian order.
pub open spec fn u32_le_bytes(v: u32) -> Seq<u8> {
    seq![
        (v % 256) as u8,
        (v / 256 % 256) as u8,
        (v / 65536 % 256) as u8,
        (v / 16777216) as u8,
    ]
}

/// Four bytes spell the sum of each byte times 256 to the power of its place.
pub proof fn lemma_le_u32_at(s: Seq<u8>, at: int)
    requires
        0 <= at,
        at + 4 <= s.len(),
    ensures
        le_u32_at(s, at) == s[at] + 256 * s[at + 1] + 65536 * s[at + 2] + 16777216 * s[at + 3],
{
    let t = s.subrange(at, at + 4);
    let t1 = t.drop_first();
    let t2 = t1.drop_first();
    let t3 = t2.drop_first();
    reveal_with_fuel(le_nat, 5);
    assert(t3.drop_first().len() == 0);
    assert(le_nat(t) == t[0] + 256 * (t1[0] + 256 * (t2[0] + 256 * (t3[0] + 256 * 0))));
}

/// Reading the bytes that spell `v` gives `v` back.
pub proof fn lemma_u32_le_round_trip(v: u32)
    ensures
        u32_le_bytes(v).len() == 4,
        le_u32_at(u32_le_bytes(v), 0) == v,
{
    lemma_le_u32_at(u32_le_bytes(v), 0);
}

/// `nom::number::complete::le_u8`: fails on empty input, else hands out the
/// first byte and the input behind it.
#[verifier::external_body]
pub(crate) fn nom_le_u8<'a>(i: &'a [u8]) -> (r: Result<
    (&'a [u8], u8),
    nom::Err<nom::error::Error<&'a [u8]>>,
>)
    ensures
        match r {
            Ok((rest, v)) => i@.len() >= 1 && rest@ == i@.skip(1) && v == i@[0],
            Err(_) => i@.len() < 1,
        },
{
    nom::number::complete::le_u8(i)
}

/// `nom::number::complete::le_u16`: fails on fewer than two bytes, else hands
/// out the little-endian value of the first two and the input behind them.
#[verifier::external_body]
pub(crate) fn nom_le_u16<'a>(i: &'a [u8]) -> (r: Result<
    (&'a [u8], u16),
    nom::Err<nom::error::Error<&'a [u8]>>,
>)
    ensures
        match r {
            Ok((rest, v)) => i@.len() >= 2 && rest@ == i@.skip(2) && v as nat == le_nat(i@.take(2)),
            Err(_) => i@.len() < 2,
        },
{
    nom::number::complete::le_u16(i)
}

/// `nom::number::complete::le_u32`: fails on fewer than four bytes, else hands
/// out the little-endian value of the first four and the input behind them.
#[verifier::external_body]
pub(crate) fn nom_le_u32<'a>(i: &'a [u8]) -> (r: Result<
    (&'a [u8], u32),
    nom::Err<nom::error::Error<&'a [u8]>>,
>)
    ensures
        match r {
            Ok((rest, v)) => i@.len() >= 4 && rest@ == i@.skip(4) && v as nat == le_nat(i@.take(4)),
            Err(_) => i@.len() < 4,
        },
{
    nom::number::complete::le_u32(i)
}

/// `nom::number::complete::le_u128`: fails on fewer than sixteen bytes, else
/// hands out the little-endian value of the first sixteen and the input behind
/// them.
#[verifier::external_body]
pub(crate) fn nom_le_u128<'a>(i: &'a [u8]) -> (r: Result<
    (&'a [u8], u128),
    nom::Err<nom::error::Error<&'a [u8]>>,
>)
    ensures
        match r {
            Ok((rest, v)) => i@.len() >= 16 && rest@ == i@.skip(16) && v as nat == le_nat(
                i@.take(16),
            ),
            Err(_) => i@.len() < 16,
        },
{
    nom::number::complete::le_u128(i)
}

/// `nom::bytes::streaming::take`: fails when the input holds fewer than `n`
/// bytes, else splits it behind the first `n`. The pair is the input behind
/// the split, then the bytes taken.
#[verifier::external_body]
pub(crate) fn nom_take<'a>(i: &'a [u8], n: usize) -> (r: Result<
    (&'a [u8], &'a [u8]),
    nom::Err<nom::error::Error<&'a [u8]>>,
>)
    ensures
        match r {
            Ok((rest, taken)) => i@.len() >= n && rest@ == i@.skip(n as int) && taken@ == i@.take(
                n as int,
            ),
            Err(_) => i@.len() < n,
        },
{
    nom::bytes::streaming::take(n)(i)
}

/// Reads one byte.
pub fn read_u8(i: &[u8]) -> (r: Result<(&[u8], u8), DecodeError>)
    ensures
        match r {
            Ok((rest, v)) => i@.len() >= 1 && rest@ == i@.skip(1) && v == i@[0],
            Err(e) => i@.len() < 1 && e == DecodeError::TruncatedInput,
        },
{
    match nom_le_u8(i) {
        Ok((rest, v)) => Ok((rest, v)),
        Err(_) => Err(DecodeError::TruncatedInput),
    }
}

/// Reads a 16-bit little-endian integer.
pub fn read_u16(i: &[u8]) -> (r: Result<(&[u8], u16), DecodeError>)
    ensures
        match r {
            Ok((rest, v)) => i@.len() >= 2 && rest@ == i@.skip(2) && v == le_u16_at(i@, 0),
            Err(e) => i@.len() < 2 && e == DecodeError::TruncatedInput,
        },
{
    match nom_le_u16(i) {
        Ok((rest, v)) => Ok((rest, v)),
        Err(_) => Err(DecodeError::TruncatedInput),
    }
}

/// Reads a 32-bit little-endian integer.
pub fn read_u32(i: &[u8]) -> (r: Result<(&[u8], u32), DecodeError>)
    ensures
        match r {
            Ok((rest, v)) => i@.len() >= 4 && rest@ == i@.skip(4) && v == le_u32_at(i@, 0),
            Err(e) => i@.len() < 4 && e == DecodeError::TruncatedInput,
        },
{
    match nom_le_u32(i) {
        Ok((rest, v)) => Ok((rest, v)),
        Err(_) => Err(DecodeError::TruncatedInput),
    }
}

/// Reads a 128-bit little-endian integer.
pub fn read_u128(i: &[u8]) -> (r: Result<(&[u8], u128), DecodeError>)
    ensures
        match r {
            Ok((rest, v)) => i@.len() >= 16 && rest@ == i@.skip(16) && v == le_u128_at(i@, 0),
            Err(e) => i@.len() < 16 && e == DecodeError::TruncatedInput,
        },
{
    match nom_le_u128(i) {
        Ok((rest, v)) => Ok((rest, v)),
        Err(_) => Err(DecodeError::TruncatedInput),
    }
}

/// Splits `i` behind its first `n` bytes: the pair is the input behind the
/// split, then the bytes taken.
pub fn take_bytes(i: &[u8], n: usize) -> (r: Result<(&[u8], &[u8]), DecodeError>)
    ensures
        match r {
            Ok((rest, taken)) => i@.len() >= n && rest@ == i@.skip(n as int) && taken@ == i@.take(
                n as int,
            ),
            Err(e) => i@.len() < n && e == DecodeError::TruncatedInput,
        },
{
    match nom_take(i, n) {
        Ok((rest, taken)) => Ok((rest, taken)),
        Err(_) => Err(DecodeError::TruncatedInput),
    }
}

} // verus!
