//! The colour-math stage: main/sub channel arithmetic, fade, and the repack
//! from internal 5-5-5 colour to 5-6-5 output.
use vstd::prelude::*;

use crate::types::{ColorMath, Lanes};

verus! {

pub open spec fn red(c: u16) -> u16 {
    (c >> 10u16) & 31
}

pub open spec fn green(c: u16) -> u16 {
    (c >> 5u16) & 31
}

pub open spec fn blue(c: u16) -> u16 {
    c & 31
}

/// Clamps a channel value to the 5-bit maximum.
pub open spec fn sat5(v: int) -> int {
    if v > 31 {
        31
    } else {
        v
    }
}

/// A main channel `m` combined with the sub channel `s` by the enabled
/// operations, in order: double main, halve main, double sub, halve sub,
/// add sub, subtract sub.
pub open spec fn channel_ops(cm: ColorMath, m: int, s: int) -> int {
    let m1 = if cm.double_main_screen {
        sat5(2 * m)
    } else {
        m
    };
    let m2 = if cm.half_main_screen {
        m1 / 2
    } else {
        m1
    };
    let s1 = if cm.double_sub_screen {
        sat5(2 * s)
    } else {
        s
    };
    let s2 = if cm.half_sub_screen {
        s1 / 2
    } else {
        s1
    };
    let m3 = if cm.add_sub_screen {
        sat5(m2 + s2)
    } else {
        m2
    };
    if cm.sub_sub_screen {
        if m3 > s2 {
            m3 - s2
        } else {
            0
        }
    } else {
        m3
    }
}

pub open spec fn faded(cm: ColorMath, v: int) -> int {
    if cm.fade_enable {
        (v * cm.screen_fade) / 256
    } else {
        v
    }
}

/// One output channel: combined with the sub screen where the lane takes
/// part in colour math, then faded.
pub open spec fn channel_out(cm: ColorMath, takes_part: bool, m: u16, s: u16) -> u16 {
    faded(
        cm,
        if takes_part {
            channel_ops(cm, m as int, s as int)
        } else {
            m as int
        },
    ) as u16
}

/// 5-6-5 output from three 5-bit channels; green's lowest bit stays clear.
pub open spec fn pack(r: u16, g: u16, b: u16) -> u16 {
    (r << 11u16) | (g << 6u16) | b
}

/// The fast-path repack of an internal colour to the output encoding.
pub open spec fn repack(c: u16) -> u16 {
    ((c & 0x7FE0) << 1u16) | (c & 0x1F)
}

/// A lane takes part in colour math when it is enabled and the lane's last
/// writer set the participation bit.
pub open spec fn takes_part(cm: ColorMath, main: u16) -> bool {
    cm.cmath_enable && main >= 0x8000
}

pub open spec fn cmath_lane(cm: ColorMath, main: u16, sub: u16) -> u16 {
    let t = takes_part(cm, main);
    pack(
        channel_out(cm, t, red(main), red(sub)),
        channel_out(cm, t, green(main), green(sub)),
        channel_out(cm, t, blue(main), blue(sub)),
    )
}

pub open spec fn cmath_spec(cm: ColorMath, main: Seq<u16>, sub: Seq<u16>) -> Seq<u16> {
    Seq::new(8, |i: int| cmath_lane(cm, main[i], sub[i]))
}

pub open spec fn repack_spec(main: Seq<u16>) -> Seq<u16> {
    Seq::new(8, |i: int| repack(main[i]))
}

/// With colour math and fade both disabled, the colour-math stage is the
/// plain repack of the main accumulator.
pub proof fn lemma_cmath_off_is_repack(cm: ColorMath, main: Seq<u16>, sub: Seq<u16>)
    requires
        !cm.cmath_enable,
        !cm.fade_enable,
    ensures
        cmath_spec(cm, main, sub) == repack_spec(main),
{
    assert forall|i: int| 0 <= i < 8 implies cmath_lane(cm, main[i], sub[i]) == repack(main[i]) by {
        let m = main[i];
        assert(pack(red(m), green(m), blue(m)) == repack(m)) by (bit_vector);
    }
    assert(cmath_spec(cm, main, sub) =~= repack_spec(main));
}

/// Red channel of an output pixel.
pub open spec fn out_red(c: u16) -> u16 {
    c >> 11u16
}

/// Green channel of an output pixel, six bits.
pub open spec fn out_green(c: u16) -> u16 {
    (c >> 5u16) & 63
}

/// Blue channel of an output pixel.
pub open spec fn out_blue(c: u16) -> u16 {
    c & 31
}

/// With fade enabled and no other colour-math flag, each output channel
/// grows (or stays) as `screen_fade` grows.
pub proof fn lemma_fade_monotone(cm: ColorMath, brighter: ColorMath, main: Seq<u16>, sub: Seq<u16>)
    requires
        cm.fade_enable,
        !cm.cmath_enable,
        !cm.half_main_screen,
        !cm.double_main_screen,
        !cm.half_sub_screen,
        !cm.double_sub_screen,
        !cm.add_sub_screen,
        !cm.sub_sub_screen,
        brighter == (ColorMath { screen_fade: brighter.screen_fade, ..cm }),
        cm.screen_fade <= brighter.screen_fade,
    ensures
        forall|i: int|
            0 <= i < 8 ==> {
                &&& out_red(#[trigger] cmath_spec(cm, main, sub)[i]) <= out_red(cmath_spec(brighter, main, sub)[i])
                &&& out_green(cmath_spec(cm, main, sub)[i]) <= out_green(cmath_spec(brighter, main, sub)[i])
                &&& out_blue(cmath_spec(cm, main, sub)[i]) <= out_blue(cmath_spec(brighter, main, sub)[i])
            },
{
    assert forall|i: int| 0 <= i < 8 implies {
        &&& out_red(#[trigger] cmath_spec(cm, main, sub)[i]) <= out_red(cmath_spec(brighter, main, sub)[i])
        &&& out_green(cmath_spec(cm, main, sub)[i]) <= out_green(cmath_spec(brighter, main, sub)[i])
        &&& out_blue(cmath_spec(cm, main, sub)[i]) <= out_blue(cmath_spec(brighter, main, sub)[i])
    } by {
        let m = main[i];
        let f1 = cm.screen_fade as int;
        let f2 = brighter.screen_fade as int;
        assert(red(m) <= 31 && green(m) <= 31 && blue(m) <= 31) by (bit_vector);
        lemma_fade_channel(red(m) as int, f1, f2);
        lemma_fade_channel(green(m) as int, f1, f2);
        lemma_fade_channel(blue(m) as int, f1, f2);
        let r1 = channel_out(cm, false, red(m), red(sub[i]));
        let g1 = channel_out(cm, false, green(m), green(sub[i]));
        let b1 = channel_out(cm, false, blue(m), blue(sub[i]));
        let r2 = channel_out(brighter, false, red(m), red(sub[i]));
        let g2 = channel_out(brighter, false, green(m), green(sub[i]));
        let b2 = channel_out(brighter, false, blue(m), blue(sub[i]));
        lemma_pack_channels(r1, g1, b1);
        lemma_pack_channels(r2, g2, b2);
    }
}

proof fn lemma_fade_channel(m: int, f1: int, f2: int)
    requires
        0 <= m <= 31,
        0 <= f1 <= f2 <= 255,
    ensures
        (m * f1) / 256 <= (m * f2) / 256,
        0 <= (m * f2) / 256 <= 31,
{
    assert(0 <= m * f1 <= m * f2 <= 31 * 255) by (nonlinear_arith)
        requires
            0 <= m <= 31,
            0 <= f1 <= f2 <= 255,
    ;
    vstd::arithmetic::div_mod::lemma_div_is_ordered(m * f1, m * f2, 256);
}

proof fn lemma_pack_channels(r: u16, g: u16, b: u16)
    requires
        r <= 31,
        g <= 31,
        b <= 31,
    ensures
        out_red(pack(r, g, b)) == r,
        out_green(pack(r, g, b)) == 2 * g,
        out_blue(pack(r, g, b)) == b,
{
    assert(r <= 31 && g <= 31 && b <= 31 ==> ((((r << 11u16) | (g << 6u16) | b) >> 11u16) == r
        && ((((r << 11u16) | (g << 6u16) | b) >> 5u16) & 63) == 2 * g && ((((r << 11u16) | (g
        << 6u16) | b) & 31) == b))) by (bit_vector);
}

proof fn lemma_channel_bounds(cm: ColorMath, m: int, s: int)
    requires
        0 <= m <= 31,
        0 <= s <= 31,
    ensures
        0 <= channel_ops(cm, m, s) <= 31,
        0 <= faded(cm, m) <= 31,
        0 <= faded(cm, channel_ops(cm, m, s)) <= 31,
{
    let c = channel_ops(cm, m, s);
    let f = cm.screen_fade as int;
    assert(0 <= m * f <= 31 * f) by (nonlinear_arith)
        requires
            0 <= m <= 31,
            0 <= f,
    ;
    assert(0 <= c * f <= 31 * f) by (nonlinear_arith)
        requires
            0 <= c <= 31,
            0 <= f,
    ;
}

fn channel(cm: &ColorMath, takes: bool, m: u16, s: u16) -> (r: u16)
    requires
        m <= 31,
        s <= 31,
    ensures
        r == channel_out(*cm, takes, m, s),
        r <= 31,
{
    proof {
        lemma_channel_bounds(*cm, m as int, s as int);
    }
    let mut v: u16 = m;
    if takes {
        let mut sv: u16 = s;
        if cm.double_main_screen {
            v = if v + v > 31 {
                31
            } else {
                v + v
            };
        }
        if cm.half_main_screen {
            v = v / 2;
        }
        if cm.double_sub_screen {
            sv = if sv + sv > 31 {
                31
            } else {
                sv + sv
            };
        }
        if cm.half_sub_screen {
            sv = sv / 2;
        }
        if cm.add_sub_screen {
            v = if v + sv > 31 {
                31
            } else {
                v + sv
            };
        }
        if cm.sub_sub_screen {
            v = if v > sv {
                v - sv
            } else {
                0
            };
        }
        assert(v == channel_ops(*cm, m as int, s as int));
    }
    if cm.fade_enable {
        assert(v * cm.screen_fade <= 31 * 255) by (nonlinear_arith)
            requires
                v <= 31,
                cm.screen_fade <= 255,
        ;
        v = (v * cm.screen_fade as u16) / 256;
    }
    v
}

/// Applies colour math and fade to the main accumulator, using the sub
/// accumulator, and packs the result to the output encoding.
pub fn handle_cmath(cmath_state: &ColorMath, main_col: &mut Lanes, sub_col: &Lanes)
    ensures
        final(main_col)@ == cmath_spec(*cmath_state, old(main_col)@, sub_col@),
{
    let ghost before = main_col@;
    let mut i: usize = 0;
    while i < 8
        invariant
            i <= 8,
            main_col@.len() == 8,
            forall|j: int| 0 <= j < i ==> main_col@[j] == cmath_lane(*cmath_state, before[j], sub_col@[j]),
            forall|j: int| i <= j < 8 ==> main_col@[j] == before[j],
        decreases 8 - i,
    {
        let m = main_col[i];
        let s = sub_col[i];
        let takes = cmath_state.cmath_enable && m >= 0x8000;
        assert(((m >> 10u16) & 31) <= 31 && ((m >> 5u16) & 31) <= 31 && (m & 31) <= 31) by (bit_vector);
        assert(((s >> 10u16) & 31) <= 31 && ((s >> 5u16) & 31) <= 31 && (s & 31) <= 31) by (bit_vector);
        let r = channel(cmath_state, takes, (m >> 10) & 31, (s >> 10) & 31);
        let g = channel(cmath_state, takes, (m >> 5) & 31, (s >> 5) & 31);
        let b = channel(cmath_state, takes, m & 31, s & 31);
        main_col[i] = (r << 11) | (g << 6) | b;
        i += 1;
    }
    assert(main_col@ =~= cmath_spec(*cmath_state, before, sub_col@));
}

/// Packs the main accumulator to the output encoding without colour math.
pub fn repack_lanes(main_col: &mut Lanes)
    ensures
        final(main_col)@ == repack_spec(old(main_col)@),
{
    let ghost before = main_col@;
    let mut i: usize = 0;
    while i < 8
        invariant
            i <= 8,
            main_col@.len() == 8,
            forall|j: int| 0 <= j < i ==> main_col@[j] == repack(before[j]),
            forall|j: int| i <= j < 8 ==> main_col@[j] == before[j],
        decreases 8 - i,
    {
        let m = main_col[i];
        main_col[i] = ((m & 0x7FE0) << 1) | (m & 0x1F);
        i += 1;
    }
    assert(main_col@ =~= repack_spec(before));
}

} // verus!
