//! Sprite sampling: locate the sprite on the current row, apply flips and
//! 2x magnification, fetch two adjacent graphics vectors and realign them.
use vstd::prelude::*;

use crate::lanes::{
    aligned, lemma_cmath_bit_keeps_colour, opaque, interleave, interleave_hi, interleave_lo, overwrite, overwrite_lanes, reverse_lanes,
    reversed, set_cmath_bit, swimzleoo, with_cmath_bit,
};
use crate::types::{
    Lanes, Mask, Sprite, SpriteRow, SPR_C_MATH, SPR_DOUBLE, SPR_FLIP_X, SPR_FLIP_Y,
    SPR_MAIN_SCREEN, SPR_SUB_SCREEN,
};
use crate::window::{get_window, window_spec};

verus! {

/// The sprite has pixels in the column group starting at `x`.
pub open spec fn sprite_hits(s: Sprite, x: int) -> bool {
    -7 <= x - s.x < s.eff_width()
}

/// Horizontal texel offset of column `x`, after flip and magnification.
pub open spec fn texel_x(s: Sprite, x: int) -> int {
    let ox0 = x - s.x;
    let ox1 = if s.flag(SPR_FLIP_X) {
        s.eff_width() - ox0 - 1
    } else {
        ox0
    };
    if s.flag(SPR_DOUBLE) {
        ox1 / 2
    } else {
        ox1
    }
}

/// Vertical texel offset of row `y`, after flip and magnification. A flip
/// mirrors about the effective width.
pub open spec fn texel_y(s: Sprite, y: int) -> int {
    let oy0 = y - s.y;
    let oy1 = if s.flag(SPR_FLIP_Y) {
        s.eff_width() - oy0 - 1
    } else {
        oy0
    };
    if s.flag(SPR_DOUBLE) {
        oy1 / 2
    } else {
        oy1
    }
}

/// Texel column of the first fetched vector.
pub open spec fn first_column(s: Sprite, x: int) -> int {
    if s.flag(SPR_DOUBLE) {
        (texel_x(s, x) / 4) * 4
    } else {
        (texel_x(s, x) / 8) * 8
    }
}

/// Texel column of the second fetched vector.
pub open spec fn second_column(s: Sprite, x: int) -> int {
    if s.flag(SPR_FLIP_X) {
        first_column(s, x) - 8
    } else {
        first_column(s, x) + 8
    }
}

/// The vector of texels at texel column `xp` of texel row `ty`; zero outside
/// the sprite's width.
pub open spec fn sprite_fetch(s: Sprite, plane: Seq<SpriteRow>, ty: int, xp: int) -> Seq<u16> {
    if xp >= s.width || xp < 0 {
        Seq::new(8, |i: int| 0u16)
    } else {
        plane[ty + s.graphics_y]@[xp / 8 + s.graphics_x]@
    }
}

/// The fetched vectors `s1, s2` rearranged so that, for a magnified sprite,
/// each texel spans two lanes, and reversed lane-wise under a horizontal flip.
pub open spec fn arranged(
    double: bool,
    flip: bool,
    on_eight: bool,
    s1: Seq<u16>,
    s2: Seq<u16>,
) -> (Seq<u16>, Seq<u16>) {
    let (d1, d2) = if double {
        if on_eight {
            if flip {
                (interleave_lo(s1, s1), interleave_hi(s2, s2))
            } else {
                (interleave_lo(s1, s1), interleave_hi(s1, s1))
            }
        } else if flip {
            (interleave_hi(s1, s1), interleave_lo(s1, s1))
        } else {
            (interleave_hi(s1, s1), interleave_lo(s2, s2))
        }
    } else {
        (s1, s2)
    };
    if flip {
        (reversed(d1), reversed(d2))
    } else {
        (d1, d2)
    }
}

/// The pair of vectors holding sixteen contiguous screen pixels of the sprite.
pub open spec fn sprite_pair(s: Sprite, plane: Seq<SpriteRow>, x: int, y: int) -> (
    Seq<u16>,
    Seq<u16>,
) {
    let xp1 = first_column(s, x);
    let ty = texel_y(s, y);
    arranged(
        s.flag(SPR_DOUBLE),
        s.flag(SPR_FLIP_X),
        xp1 % 8 == 0,
        sprite_fetch(s, plane, ty, xp1),
        sprite_fetch(s, plane, ty, second_column(s, x)),
    )
}

/// The eight sprite texels at the column group `(x, y)`, before the
/// participation bit is set.
pub open spec fn sprite_texels(s: Sprite, plane: Seq<SpriteRow>, x: int, y: int) -> Seq<u16> {
    let (p1, p2) = sprite_pair(s, plane, x, y);
    aligned(p1, p2, (8 - s.x % 8) % 8)
}

/// The eight sprite pixels drawn at the column group `(x, y)`.
pub open spec fn sprite_pixels(s: Sprite, plane: Seq<SpriteRow>, x: int, y: int) -> Seq<u16> {
    let px = sprite_texels(s, plane, x, y);
    if s.flag(SPR_C_MATH) {
        with_cmath_bit(px)
    } else {
        px
    }
}

/// The main accumulator after sprite `s` is drawn over `main`.
pub open spec fn sprite_main(
    s: Sprite,
    plane: Seq<SpriteRow>,
    main: Seq<u16>,
    x: int,
    y: int,
    w1: Seq<bool>,
    w2: Seq<bool>,
) -> Seq<u16> {
    if sprite_hits(s, x) && s.flag(SPR_MAIN_SCREEN) {
        overwrite(main, sprite_pixels(s, plane, x, y), window_spec(s.main_window(), w1, w2))
    } else {
        main
    }
}

/// The sub accumulator after sprite `s` is drawn over `sub`.
pub open spec fn sprite_sub(
    s: Sprite,
    plane: Seq<SpriteRow>,
    sub: Seq<u16>,
    x: int,
    y: int,
    w1: Seq<bool>,
    w2: Seq<bool>,
) -> Seq<u16> {
    if sprite_hits(s, x) && s.flag(SPR_SUB_SCREEN) {
        overwrite(sub, sprite_pixels(s, plane, x, y), window_spec(s.sub_window(), w1, w2))
    } else {
        sub
    }
}

/// The pixel a sprite draws has the low 15 bits of its texel.
pub proof fn lemma_sprite_pixel_colour(s: Sprite, plane: Seq<SpriteRow>, x: int, y: int, i: int)
    requires
        0 <= i < 8,
    ensures
        opaque(sprite_pixels(s, plane, x, y)[i]) == opaque(sprite_texels(s, plane, x, y)[i]),
{
    lemma_cmath_bit_keeps_colour(sprite_texels(s, plane, x, y)[i]);
}

/// A lane whose sprite texel has zero low 15 bits leaves both accumulators
/// as they were, with or without the sprite's colour-math flag.
pub proof fn lemma_sprite_transparent(
    s: Sprite,
    plane: Seq<SpriteRow>,
    main: Seq<u16>,
    sub: Seq<u16>,
    x: int,
    y: int,
    w1: Seq<bool>,
    w2: Seq<bool>,
    i: int,
)
    requires
        0 <= i < 8,
        sprite_texels(s, plane, x, y)[i] & 0x7FFF == 0,
    ensures
        sprite_main(s, plane, main, x, y, w1, w2)[i] == main[i],
        sprite_sub(s, plane, sub, x, y, w1, w2)[i] == sub[i],
{
    lemma_sprite_pixel_colour(s, plane, x, y, i);
}

/// Setting a sprite's horizontal flip twice gives the same sprite image.
pub proof fn lemma_sprite_flip_twice(s: Sprite, plane: Seq<SpriteRow>, x: int, y: int)
    ensures
        sprite_pixels(
            Sprite { flags: (s.flags ^ SPR_FLIP_X) ^ SPR_FLIP_X, ..s },
            plane,
            x,
            y,
        ) == sprite_pixels(s, plane, x, y),
{
    let f = s.flags;
    assert((f ^ 4u16) ^ 4u16 == f) by (bit_vector);
    assert(1u16 << 2u16 == 4u16) by (bit_vector);
    assert(SPR_FLIP_X == 4u16);
    assert(Sprite { flags: (s.flags ^ SPR_FLIP_X) ^ SPR_FLIP_X, ..s } == s);
}

/// The texel at column `col` of texel row `ty`; zero outside the sprite's
/// width.
pub open spec fn texel_at(s: Sprite, plane: Seq<SpriteRow>, ty: int, col: int) -> u16 {
    if 0 <= col < s.width {
        plane[ty + s.graphics_y]@[col / 8 + s.graphics_x]@[col % 8]
    } else {
        0
    }
}

/// For an unmagnified sprite whose width is a multiple of 8, drawn at a
/// column group starting on a multiple of 8, lane `i` shows the texel of
/// sprite column `c = x + i - s.x`, or of column `width - 1 - c` when the
/// sprite is flipped horizontally.
pub proof fn lemma_sprite_lane_texel(s: Sprite, plane: Seq<SpriteRow>, x: int, y: int, i: int)
    requires
        !s.flag(SPR_DOUBLE),
        s.width % 8 == 0,
        x % 8 == 0,
        sprite_hits(s, x),
        0 <= i < 8,
    ensures
        sprite_texels(s, plane, x, y)[i] == texel_at(
            s,
            plane,
            texel_y(s, y),
            if s.flag(SPR_FLIP_X) {
                s.width - 1 - (x + i - s.x)
            } else {
                x + i - s.x
            },
        ),
{
    let w = s.width as int;
    let k = (8 - s.x % 8) % 8;
    let ox0 = x - s.x;
    let c = x + i - s.x;
    let xp1 = first_column(s, x);
    let ty = texel_y(s, y);
    assert(ox0 % 8 == k && 0 <= k < 8) by {
        vstd::arithmetic::div_mod::lemma_fundamental_div_mod(s.x as int, 8);
        vstd::arithmetic::div_mod::lemma_fundamental_div_mod(x, 8);
        vstd::arithmetic::div_mod::lemma_fundamental_div_mod(ox0, 8);
    }
    let s1 = sprite_fetch(s, plane, ty, xp1);
    let s2 = sprite_fetch(s, plane, ty, second_column(s, x));
    if !s.flag(SPR_FLIP_X) {
        assert(xp1 == ox0 - k) by {
            vstd::arithmetic::div_mod::lemma_fundamental_div_mod(ox0, 8);
        }
        if i + k < 8 {
            assert(c == xp1 + (i + k));
            assert(sprite_texels(s, plane, x, y)[i] == s1[i + k]);
        } else {
            assert(c == xp1 + 8 + (i + k - 8));
            assert(sprite_texels(s, plane, x, y)[i] == s2[i + k - 8]);
        }
    } else {
        let ox1 = w - ox0 - 1;
        assert(ox1 % 8 == 7 - k) by {
            vstd::arithmetic::div_mod::lemma_fundamental_div_mod(ox0, 8);
            vstd::arithmetic::div_mod::lemma_fundamental_div_mod(w, 8);
            vstd::arithmetic::div_mod::lemma_fundamental_div_mod(ox1, 8);
        }
        assert(xp1 == ox1 - (7 - k)) by {
            vstd::arithmetic::div_mod::lemma_fundamental_div_mod(ox1, 8);
        }
        let m = w - 1 - c;
        if i + k < 8 {
            assert(m == xp1 + (7 - (i + k)));
            assert(sprite_texels(s, plane, x, y)[i] == s1[7 - (i + k)]);
        } else {
            assert(m == xp1 - 8 + (7 - (i + k - 8)));
            assert(sprite_texels(s, plane, x, y)[i] == s2[7 - (i + k - 8)]);
        }
    }
}

/// Setting the horizontal flip of an unmagnified sprite, whose width is a
/// multiple of 8, mirrors its image: screen column `p` inside the flipped
/// sprite shows what column `q = 2 * s.x + width - 1 - p` shows unflipped.
pub proof fn lemma_sprite_flip_mirror(
    s: Sprite,
    plane: Seq<SpriteRow>,
    y: int,
    x: int,
    i: int,
    x2: int,
    j: int,
)
    requires
        !s.flag(SPR_DOUBLE),
        s.width % 8 == 0,
        x % 8 == 0,
        x2 % 8 == 0,
        0 <= i < 8,
        0 <= j < 8,
        0 <= x + i - s.x < s.width,
        x2 + j == 2 * s.x + s.width - 1 - (x + i),
    ensures
        sprite_pixels(Sprite { flags: s.flags ^ SPR_FLIP_X, ..s }, plane, x, y)[i] == sprite_pixels(
            s,
            plane,
            x2,
            y,
        )[j],
{
    let t = Sprite { flags: s.flags ^ SPR_FLIP_X, ..s };
    let f = s.flags;
    assert(1u16 << 2u16 == 4u16 && 1u16 << 3u16 == 8u16 && 1u16 << 6u16 == 64u16 && 1u16 << 7u16
        == 128u16) by (bit_vector);
    assert(((f ^ 4) & 4 != 0) == !(f & 4 != 0) && ((f ^ 4) & 8) == (f & 8) && ((f ^ 4) & 64) == (f
        & 64) && ((f ^ 4) & 128) == (f & 128)) by (bit_vector);
    assert(t.flag(SPR_FLIP_X) == !s.flag(SPR_FLIP_X));
    assert(t.flag(SPR_FLIP_Y) == s.flag(SPR_FLIP_Y));
    assert(t.flag(SPR_C_MATH) == s.flag(SPR_C_MATH));
    assert(t.flag(SPR_DOUBLE) == s.flag(SPR_DOUBLE));
    assert(texel_y(t, y) == texel_y(s, y));
    lemma_sprite_lane_texel(t, plane, x, y, i);
    lemma_sprite_lane_texel(s, plane, x2, y, j);
}

fn fetch_sprite_vector(
    sprite: &Sprite,
    graphics: &Vec<SpriteRow>,
    ty: usize,
    xp: i32,
) -> (r: Lanes)
    requires
        graphics@.len() == 256,
        sprite.fits_plane(),
        ty < (if sprite.flag(SPR_FLIP_Y) {
            sprite.width
        } else {
            sprite.height
        }),
    ensures
        r@ == sprite_fetch(*sprite, graphics@, ty as int, xp as int),
{
    if xp >= sprite.width as i32 || xp < 0 {
        let r: Lanes = [0u16; 8];
        assert(r@ =~= sprite_fetch(*sprite, graphics@, ty as int, xp as int));
        r
    } else {
        let col = (xp as usize) / 8 + sprite.graphics_x as usize;
        graphics[ty + sprite.graphics_y as usize][col]
    }
}

fn arrange(double: bool, flip: bool, on_eight: bool, s1: Lanes, s2: Lanes) -> (r: (Lanes, Lanes))
    ensures
        (r.0@, r.1@) == arranged(double, flip, on_eight, s1@, s2@),
{
    let (mut p1, mut p2) = (s1, s2);
    if double {
        if on_eight {
            if flip {
                p1 = interleave(s1, s1).0;
                p2 = interleave(s2, s2).1;
            } else {
                let (lo, hi) = interleave(s1, s1);
                p1 = lo;
                p2 = hi;
            }
        } else if flip {
            let (lo, hi) = interleave(s1, s1);
            p2 = lo;
            p1 = hi;
        } else {
            p1 = interleave(s1, s1).1;
            p2 = interleave(s2, s2).0;
        }
    }
    if flip {
        p1 = reverse_lanes(p1);
        p2 = reverse_lanes(p2);
    }
    (p1, p2)
}

/// Texel row and first texel column of a sprite at `(x, y)`.
fn texel_position(sprite: &Sprite, x: i16, y: i16) -> (r: (usize, i32))
    requires
        sprite.fits_plane(),
        sprite.covers_row(y as int),
        sprite_hits(*sprite, x as int),
    ensures
        r.0 == texel_y(*sprite, y as int),
        r.0 < (if sprite.flag(SPR_FLIP_Y) {
            sprite.width
        } else {
            sprite.height
        }),
        r.1 == first_column(*sprite, x as int),
{
    let s = *sprite;
    let double = sprite.flags & SPR_DOUBLE != 0;
    let flip_x = sprite.flags & SPR_FLIP_X != 0;
    let flip_y = sprite.flags & SPR_FLIP_Y != 0;
    let width: i32 = sprite.width as i32;
    let eff_width: i32 = if double {
        2 * width
    } else {
        width
    };
    let ox0: i32 = x as i32 - sprite.x as i32;
    let ox1: i32 = if flip_x {
        eff_width - ox0 - 1
    } else {
        ox0
    };
    let oy0: i32 = y as i32 - sprite.y as i32;
    let oy1: i32 = if flip_y {
        eff_width - oy0 - 1
    } else {
        oy0
    };
    // ox1 >= -7: shifted by 8 so that halving and rounding stay non-negative
    let ox: i32 = if double {
        (ox1 + 8) / 2 - 4
    } else {
        ox1
    };
    let oy: i32 = if double {
        oy1 / 2
    } else {
        oy1
    };
    assert(ox == texel_x(s, x as int));
    assert(oy == texel_y(s, y as int));
    let xp1: i32 = if double {
        ((ox + 8) / 4) * 4 - 8
    } else {
        ((ox + 8) / 8) * 8 - 8
    };
    (oy as usize, xp1)
}

/// The eight pixels of `sprite` at the column group `(x, y)`.
fn sprite_lanes(sprite: &Sprite, graphics: &Vec<SpriteRow>, x: i16, y: i16) -> (r: Lanes)
    requires
        graphics@.len() == 256,
        sprite.fits_plane(),
        sprite.covers_row(y as int),
        sprite_hits(*sprite, x as int),
    ensures
        r@ == sprite_pixels(*sprite, graphics@, x as int, y as int),
{
    let s = *sprite;
    let double = sprite.flags & SPR_DOUBLE != 0;
    let flip_x = sprite.flags & SPR_FLIP_X != 0;
    let (ty, xp1) = texel_position(sprite, x, y);
    let xp2: i32 = if flip_x {
        xp1 - 8
    } else {
        xp1 + 8
    };
    let s1 = fetch_sprite_vector(sprite, graphics, ty, xp1);
    let s2 = fetch_sprite_vector(sprite, graphics, ty, xp2);
    let on_eight = (xp1 + 8) % 8 == 0;
    let (p1, p2) = arrange(double, flip_x, on_eight, s1, s2);
    assert((p1@, p2@) == sprite_pair(s, graphics@, x as int, y as int));
    let offset: usize = ((8 - (sprite.x as i32 + 32768) % 8) % 8) as usize;
    assert(offset == (8 - s.x % 8) % 8);
    let px = swimzleoo(p1, p2, offset);
    if sprite.flags & SPR_C_MATH != 0 {
        set_cmath_bit(px)
    } else {
        px
    }
}

/// Samples `sprite` for the column group at `(x, y)` and draws it into the
/// main and sub accumulators.
pub fn handle_sprite(
    sprite: &Sprite,
    graphics: &Vec<SpriteRow>,
    main_col: &mut Lanes,
    sub_col: &mut Lanes,
    x: i16,
    y: i16,
    window_1: Mask,
    window_2: Mask,
)
    requires
        graphics@.len() == 256,
        sprite.fits_plane(),
        sprite.covers_row(y as int),
    ensures
        final(main_col)@ == sprite_main(
            *sprite,
            graphics@,
            old(main_col)@,
            x as int,
            y as int,
            window_1@,
            window_2@,
        ),
        final(sub_col)@ == sprite_sub(
            *sprite,
            graphics@,
            old(sub_col)@,
            x as int,
            y as int,
            window_1@,
            window_2@,
        ),
{
    let double = sprite.flags & SPR_DOUBLE != 0;
    let eff_width: i32 = if double {
        2 * sprite.width as i32
    } else {
        sprite.width as i32
    };
    let ox0: i32 = x as i32 - sprite.x as i32;
    if ox0 < -7 || ox0 >= eff_width {
        return;
    }
    let px = sprite_lanes(sprite, graphics, x, y);
    let main_fn: u8 = ((sprite.flags >> 8) & 0xF) as u8;
    let sub_fn: u8 = ((sprite.flags >> 12) & 0xF) as u8;
    if sprite.flags & SPR_MAIN_SCREEN != 0 {
        let main_window = get_window(main_fn, window_1, window_2);
        *main_col = overwrite_lanes(*main_col, px, main_window);
    }
    if sprite.flags & SPR_SUB_SCREEN != 0 {
        let sub_window = get_window(sub_fn, window_1, window_2);
        *sub_col = overwrite_lanes(*sub_col, px, sub_window);
    }
}

} // verus!
