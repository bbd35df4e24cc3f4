//! The byte-backed decision source.
//!
//! Decisions are drawn from an `arbitrary::Unstructured`, which hands out the
//! bytes of a buffer from left to right. Its own methods fall back to a default
//! value when the buffer runs dry; the draws of this module refuse instead, so
//! that every decision is backed by bytes of the input.

use arbitrary::Unstructured;
use vstd::prelude::*;

verus! {

#[verifier::external_type_specification]
#[verifier::external_body]
pub struct ExUnstructured<'a>(arbitrary::Unstructured<'a>);

#[verifier::external_type_specification]
#[verifier::external_body]
pub struct ExSourceError(arbitrary::Error);

/// The bytes that an `Unstructured` has not handed out yet, in order.
pub uninterp spec fn remaining(u: Unstructured) -> Seq<u8>;

/// `Unstructured::new` wraps the data whole.
pub assume_specification<'a>[ Unstructured::<'a>::new ](data: &'a [u8]) -> (u: Unstructured<'a>)
    ensures
        remaining(u) == data@,
;

/// `Unstructured::len` is the number of bytes not yet consumed.
pub assume_specification<'a>[ Unstructured::<'a>::len ](u: &Unstructured<'a>) -> (n: usize)
    ensures
        n == remaining(*u).len(),
;

/// `Unstructured::is_empty` says whether no byte is left.
pub assume_specification<'a>[ Unstructured::<'a>::is_empty ](u: &Unstructured<'a>) -> (b: bool)
    ensures
        b == (remaining(*u).len() == 0),
;

/// The smaller of two numbers.
pub open spec fn min_nat(a: nat, b: nat) -> nat {
    if a <= b {
        a
    } else {
        b
    }
}

/// The number of bytes that a choice among `span + 1` values reads: as many as
/// the span has significant bytes.
pub open spec fn bytes_wanted(span: u32) -> nat {
    if span == 0 {
        0
    } else if span < 0x100 {
        1
    } else if span < 0x1_0000 {
        2
    } else if span < 0x100_0000 {
        3
    } else {
        4
    }
}

/// The number that the bytes spell with the first byte as the least significant.
pub open spec fn little_endian(bytes: Seq<u8>) -> nat
    decreases bytes.len(),
{
    if bytes.len() == 0 {
        0
    } else {
        bytes[0] as nat + 256 * little_endian(bytes.skip(1))
    }
}

/// The first `n` bytes, with zeros where the sequence is shorter.
pub open spec fn padded(bytes: Seq<u8>, n: nat) -> Seq<u8> {
    Seq::new(
        n,
        |i: int|
            if i < bytes.len() {
                bytes[i]
            } else {
                0u8
            },
    )
}

/// The number that the bytes spell with the first byte as the most significant.
pub open spec fn big_endian(bytes: Seq<u8>) -> nat
    decreases bytes.len(),
{
    if bytes.len() == 0 {
        0
    } else {
        big_endian(bytes.drop_last()) * 256 + bytes.last() as nat
    }
}

/// The integer in `lo..=hi` that the front of `bytes` selects: the bytes that are
/// read, taken as a big-endian number, reduced modulo the size of the range and
/// counted from `lo`.
#[verifier::opaque]
pub open spec fn picked(bytes: Seq<u8>, lo: u32, hi: u32) -> u32 {
    let span = (hi - lo) as u32;
    let raw = big_endian(bytes.take(min_nat(bytes_wanted(span), bytes.len()) as int));
    if span == u32::MAX {
        raw as u32
    } else {
        (lo + raw % (span + 1) as nat) as u32
    }
}

/// `picked` stays within its range.
pub proof fn picked_in_range(bytes: Seq<u8>, lo: u32, hi: u32)
    requires
        lo <= hi,
    ensures
        lo <= picked(bytes, lo, hi) <= hi,
{
    reveal(picked);
    let span = (hi - lo) as u32;
    let raw = big_endian(bytes.take(min_nat(bytes_wanted(span), bytes.len()) as int));
    if span != u32::MAX {
        assert(0 <= raw % (span + 1) as nat <= span) by (nonlinear_arith)
            requires
                span >= 0,
        ;
    }
}

/// Calls `Unstructured::int_in_range` for `u32` on `lo..=hi`.
///
/// As the crate's source has it: a range of one value reads nothing; otherwise
/// the call reads as many bytes as `hi - lo` has significant bytes, or all that
/// is left if that is less, takes them as a big-endian number, reduces it
/// modulo the size of the range and counts from `lo`. It never fails. The
/// outside function panics where `lo` is above `hi`.
#[verifier::external_body]
pub(crate) fn int_in_range(u: &mut Unstructured, lo: u32, hi: u32) -> (r: Result<
    u32,
    arbitrary::Error,
>)
    requires
        lo <= hi,
    ensures
        r == Ok::<u32, arbitrary::Error>(picked(remaining(*old(u)), lo, hi)),
        remaining(*final(u)) == remaining(*old(u)).skip(
            min_nat(bytes_wanted((hi - lo) as u32), remaining(*old(u)).len()) as int,
        ),
{
    u.int_in_range(lo..=hi)
}

/// Calls `Unstructured::ratio` for `u32`.
///
/// As the crate's source has it: the call draws an integer from
/// `1..=denominator` as `int_in_range` does and answers whether it is at most
/// `numerator`. The outside function panics where the numerator is 0 or above
/// the denominator.
#[verifier::external_body]
pub(crate) fn ratio(u: &mut Unstructured, numerator: u32, denominator: u32) -> (r: Result<
    bool,
    arbitrary::Error,
>)
    requires
        0 < numerator <= denominator,
    ensures
        r == Ok::<bool, arbitrary::Error>(picked(remaining(*old(u)), 1, denominator) <= numerator),
        remaining(*final(u)) == remaining(*old(u)).skip(
            min_nat(bytes_wanted((denominator - 1) as u32), remaining(*old(u)).len()) as int,
        ),
{
    u.ratio(numerator, denominator)
}

/// Calls `Unstructured::arbitrary` for `u64`.
///
/// As the crate's source has it: the call reads eight bytes, or all that is left
/// and zeros for the rest, takes them as a little-endian number, and never fails.
/// The crate builds a double from the very same bits.
#[verifier::external_body]
pub(crate) fn arbitrary_u64(u: &mut Unstructured) -> (r: Result<u64, arbitrary::Error>)
    ensures
        r is Ok,
        r->Ok_0 as nat == little_endian(padded(remaining(*old(u)), 8)),
        remaining(*final(u)) == remaining(*old(u)).skip(
            min_nat(8, remaining(*old(u)).len()) as int,
        ),
{
    u.arbitrary::<u64>()
}

} // verus!
