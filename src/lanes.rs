//! Whole-vector operations on eight-lane pixel groups.
use vstd::prelude::*;

use crate::types::{Lanes, Mask};

verus! {

/// `[a[k], .., a[7], b[0], .., b[k - 1]]`: the eight pixels that start `k`
/// lanes into the pair `a, b`.
pub open spec fn aligned(a: Seq<u16>, b: Seq<u16>, k: int) -> Seq<u16> {
    Seq::new(8, |i: int| if i + k < 8 { a[i + k] } else { b[i + k - 8] })
}

pub open spec fn reversed(a: Seq<u16>) -> Seq<u16> {
    Seq::new(8, |i: int| a[7 - i])
}

/// First half of the lane-wise interleaving `[a0, b0, a1, b1, .., a3, b3]`.
pub open spec fn interleave_lo(a: Seq<u16>, b: Seq<u16>) -> Seq<u16> {
    Seq::new(8, |i: int| if i % 2 == 0 { a[i / 2] } else { b[i / 2] })
}

/// Second half of the lane-wise interleaving `[a4, b4, .., a7, b7]`.
pub open spec fn interleave_hi(a: Seq<u16>, b: Seq<u16>) -> Seq<u16> {
    Seq::new(8, |i: int| if i % 2 == 0 { a[4 + i / 2] } else { b[4 + i / 2] })
}

/// Every lane with the colour-math participation bit set.
pub open spec fn with_cmath_bit(a: Seq<u16>) -> Seq<u16> {
    Seq::new(8, |i: int| a[i] | 0x8000)
}

/// A colour whose low 15 bits are zero is transparent, whatever its
/// participation bit.
pub open spec fn opaque(c: u16) -> bool {
    c & 0x7FFF != 0
}

/// The lanes of `acc` where `win` holds and `px` is not transparent get
/// `px`'s value.
pub open spec fn overwrite(acc: Seq<u16>, px: Seq<u16>, win: Seq<bool>) -> Seq<u16> {
    Seq::new(8, |i: int| if win[i] && opaque(px[i]) { px[i] } else { acc[i] })
}

/// Setting the participation bit keeps a colour's low 15 bits.
pub proof fn lemma_cmath_bit_keeps_colour(c: u16)
    ensures
        (c | 0x8000) & 0x7FFF == c & 0x7FFF,
{
    assert((c | 0x8000) & 0x7FFF == c & 0x7FFF) by (bit_vector);
}

pub open spec fn splat(v: u16) -> Seq<u16> {
    Seq::new(8, |i: int| v)
}

/// Realigns two adjacent vectors to a sub-vector offset.
pub fn swimzleoo(a: Lanes, b: Lanes, offset: usize) -> (r: Lanes)
    requires
        offset < 8,
    ensures
        r@ == aligned(a@, b@, offset as int),
{
    let mut r: Lanes = [0u16; 8];
    let mut i: usize = 0;
    while i < 8
        invariant
            i <= 8,
            offset < 8,
            forall|j: int| 0 <= j < i ==> r@[j] == aligned(a@, b@, offset as int)[j],
        decreases 8 - i,
    {
        if i + offset < 8 {
            r[i] = a[i + offset];
        } else {
            r[i] = b[i + offset - 8];
        }
        i += 1;
    }
    assert(r@ =~= aligned(a@, b@, offset as int));
    r
}

pub fn reverse_lanes(a: Lanes) -> (r: Lanes)
    ensures
        r@ == reversed(a@),
{
    let r: Lanes = [a[7], a[6], a[5], a[4], a[3], a[2], a[1], a[0]];
    assert(r@ =~= reversed(a@));
    r
}

/// Interleaves the lanes of `a` and `b`, returning the low and high halves.
pub fn interleave(a: Lanes, b: Lanes) -> (r: (Lanes, Lanes))
    ensures
        r.0@ == interleave_lo(a@, b@),
        r.1@ == interleave_hi(a@, b@),
{
    let lo: Lanes = [a[0], b[0], a[1], b[1], a[2], b[2], a[3], b[3]];
    let hi: Lanes = [a[4], b[4], a[5], b[5], a[6], b[6], a[7], b[7]];
    assert(lo@ =~= interleave_lo(a@, b@));
    assert(hi@ =~= interleave_hi(a@, b@));
    (lo, hi)
}

pub fn set_cmath_bit(a: Lanes) -> (r: Lanes)
    ensures
        r@ == with_cmath_bit(a@),
{
    let mut r: Lanes = a;
    let mut i: usize = 0;
    while i < 8
        invariant
            i <= 8,
            forall|j: int| 0 <= j < i ==> r@[j] == a@[j] | 0x8000,
            forall|j: int| i <= j < 8 ==> r@[j] == a@[j],
        decreases 8 - i,
    {
        r[i] = r[i] | 0x8000;
        i += 1;
    }
    assert(r@ =~= with_cmath_bit(a@));
    r
}

/// Writes the non-transparent lanes of `px` that `win` admits into `acc`.
pub fn overwrite_lanes(acc: Lanes, px: Lanes, win: Mask) -> (r: Lanes)
    ensures
        r@ == overwrite(acc@, px@, win@),
{
    let mut r: Lanes = acc;
    let mut i: usize = 0;
    while i < 8
        invariant
            i <= 8,
            forall|j: int| 0 <= j < i ==> r@[j] == overwrite(acc@, px@, win@)[j],
            forall|j: int| i <= j < 8 ==> r@[j] == acc@[j],
        decreases 8 - i,
    {
        if win[i] && px[i] & 0x7FFF != 0 {
            r[i] = px[i];
        }
        i += 1;
    }
    assert(r@ =~= overwrite(acc@, px@, win@));
    r
}

} // verus!
