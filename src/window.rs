//! Window evaluation: the per-column window predicates and the 4-bit
//! Boolean function over them.
use vstd::prelude::*;

use crate::types::Mask;

verus! {

/// The four bits of `f`, from least significant up, admit the minterms
/// `W1 and not W2`, `not W1 and W2`, `W1 and W2`, `not W1 and not W2`.
pub open spec fn window_bit(f: u8, w1: bool, w2: bool) -> bool {
    ||| (f & 1 != 0 && w1 && !w2)
    ||| (f & 2 != 0 && !w1 && w2)
    ||| (f & 4 != 0 && w1 && w2)
    ||| (f & 8 != 0 && !w1 && !w2)
}

pub open spec fn window_spec(f: u8, w1: Seq<bool>, w2: Seq<bool>) -> Seq<bool> {
    Seq::new(8, |i: int| window_bit(f, w1[i], w2[i]))
}

/// Lane `i` holds when column `x + i` lies in `[left, right)`.
pub open spec fn column_window(x: int, left: u8, right: u8) -> Seq<bool> {
    Seq::new(8, |i: int| left <= x + i < right)
}

/// Whatever the two window predicates, function 15 admits every lane and
/// function 0 admits none.
pub proof fn lemma_window_identity(w1: Seq<bool>, w2: Seq<bool>)
    ensures
        window_spec(15, w1, w2) == Seq::new(8, |i: int| true),
        window_spec(0, w1, w2) == Seq::new(8, |i: int| false),
{
    assert(0u8 & 1 == 0 && 0u8 & 2 == 0 && 0u8 & 4 == 0 && 0u8 & 8 == 0) by (bit_vector);
    assert(15u8 & 1 != 0 && 15u8 & 2 != 0 && 15u8 & 4 != 0 && 15u8 & 8 != 0) by (bit_vector);
    assert(window_spec(15, w1, w2) =~= Seq::new(8, |i: int| true));
    assert(window_spec(0, w1, w2) =~= Seq::new(8, |i: int| false));
}

/// Evaluates the window function `logic` lane by lane.
pub fn get_window(logic: u8, window_1: Mask, window_2: Mask) -> (r: Mask)
    ensures
        r@ == window_spec(logic, window_1@, window_2@),
{
    let a = logic & 1 != 0;
    let b = logic & 2 != 0;
    let ab = logic & 4 != 0;
    let none = logic & 8 != 0;
    let mut r: Mask = [false; 8];
    let mut i: usize = 0;
    while i < 8
        invariant
            i <= 8,
            a == (logic & 1 != 0),
            b == (logic & 2 != 0),
            ab == (logic & 4 != 0),
            none == (logic & 8 != 0),
            forall|j: int|
                0 <= j < i ==> r@[j] == window_bit(logic, window_1@[j], window_2@[j]),
        decreases 8 - i,
    {
        let w1 = window_1[i];
        let w2 = window_2[i];
        r[i] = (a && w1 && !w2) || (b && !w1 && w2) || (ab && w1 && w2) || (none && !w1 && !w2);
        i += 1;
    }
    assert(r@ =~= window_spec(logic, window_1@, window_2@));
    r
}

/// The columns `x .. x + 7` tested against the window `[left, right)`.
pub fn window_mask(x: u8, left: u8, right: u8) -> (r: Mask)
    ensures
        r@ == column_window(x as int, left, right),
{
    let mut r: Mask = [false; 8];
    let mut i: u16 = 0;
    while i < 8
        invariant
            i <= 8,
            forall|j: int| 0 <= j < i ==> r@[j] == (left <= x + j < right),
        decreases 8 - i,
    {
        let c: u16 = x as u16 + i;
        r[i as usize] = c >= left as u16 && c < right as u16;
        i += 1;
    }
    assert(r@ =~= column_window(x as int, left, right));
    r
}

} // verus!
