//! Properties of whole frames and of the layer order, stated over the
//! compositor's specification.
use vstd::prelude::*;

use crate::background::{
    bg_main, bg_pixels, bg_texels, lemma_bg_pixel_colour, lemma_bg_scroll_wrap, map_repeats_per_plane,
};
use crate::lanes::opaque;
use crate::cmath::{lemma_cmath_off_is_repack, repack};
use crate::ppu::{fill_main, sprites_main, SASPPU};
use crate::sprite::{lemma_sprite_pixel_colour, sprite_hits, sprite_pixels, sprite_texels};
use crate::types::{Background, BackgroundMap, Lanes, Sprite, SpriteRow, SPR_MAIN_SCREEN};
use crate::window::window_bit;

verus! {

/// Sprite `s` puts its own pixel into lane `i` of the main accumulator.
pub open spec fn sprite_writes_main(
    s: Sprite,
    plane: Seq<SpriteRow>,
    x: int,
    y: int,
    w1: Seq<bool>,
    w2: Seq<bool>,
    i: int,
) -> bool {
    &&& sprite_hits(s, x)
    &&& s.flag(SPR_MAIN_SCREEN)
    &&& window_bit(s.main_window(), w1[i], w2[i])
    &&& opaque(sprite_texels(s, plane, x, y)[i])
}

/// Index of the last sprite of `list` that writes lane `i` of the main
/// accumulator, or -1 when none does.
pub open spec fn last_main_writer(
    list: Seq<Sprite>,
    plane: Seq<SpriteRow>,
    x: int,
    y: int,
    w1: Seq<bool>,
    w2: Seq<bool>,
    i: int,
) -> int
    decreases list.len(),
{
    if list.len() == 0 {
        -1
    } else if sprite_writes_main(list.last(), plane, x, y, w1, w2, i) {
        list.len() - 1
    } else {
        last_main_writer(list.drop_last(), plane, x, y, w1, w2, i)
    }
}

/// The enabled background `state` puts its own pixel into lane `i` of the
/// main accumulator.
pub open spec fn bg_writes_main(
    state: Background,
    map: BackgroundMap,
    gfx: Seq<Lanes>,
    x: int,
    y: int,
    w1: Seq<bool>,
    w2: Seq<bool>,
    i: int,
) -> bool {
    &&& state.enable
    &&& state.main_screen_enable
    &&& window_bit(state.main_window_log, w1[i], w2[i])
    &&& opaque(bg_texels(state, map, gfx, x, y)[i])
}

/// Lane `i` after drawing a list of sprites holds the pixel of the last
/// sprite that writes it, or the lane as it was when none does.
pub proof fn lemma_sprites_last_writer(
    list: Seq<Sprite>,
    plane: Seq<SpriteRow>,
    main: Seq<u16>,
    x: int,
    y: int,
    w1: Seq<bool>,
    w2: Seq<bool>,
    i: int,
)
    requires
        0 <= i < 8,
    ensures
        -1 <= last_main_writer(list, plane, x, y, w1, w2, i) < list.len(),
        last_main_writer(list, plane, x, y, w1, w2, i) >= 0 ==> sprites_main(list, plane, main, x, y, w1, w2)[i]
            == sprite_pixels(list[last_main_writer(list, plane, x, y, w1, w2, i)], plane, x, y)[i],
        last_main_writer(list, plane, x, y, w1, w2, i) < 0 ==> sprites_main(list, plane, main, x, y, w1, w2)[i]
            == main[i],
    decreases list.len(),
{
    if list.len() > 0 {
        lemma_sprite_pixel_colour(list.last(), plane, x, y, i);
        lemma_sprites_last_writer(list.drop_last(), plane, main, x, y, w1, w2, i);
        let k = last_main_writer(list.drop_last(), plane, x, y, w1, w2, i);
        if k >= 0 {
            assert(list.drop_last()[k] == list[k]);
        }
    }
}

/// Layers are drawn in the order BG0, priority-0 sprites, BG1, priority-1
/// sprites, and a later layer's non-transparent, window-passing pixel
/// replaces an earlier one: lane `i` of the main accumulator holds the pixel
/// of the last layer that writes it, or the fill colour.
pub proof fn lemma_layer_order(ppu: SASPPU, c0: Seq<Sprite>, c1: Seq<Sprite>, x: int, y: int, i: int)
    requires
        0 <= i < 8,
    ensures
        ({
            let w1 = ppu.window_1(x);
            let w2 = ppu.window_2(x);
            let plane = ppu.sprites@;
            let k0 = last_main_writer(c0, plane, x, y, w1, w2, i);
            let k1 = last_main_writer(c1, plane, x, y, w1, w2, i);
            ppu.main_layers(c0, c1, x, y)[i] == if k1 >= 0 {
                sprite_pixels(c1[k1], plane, x, y)[i]
            } else if bg_writes_main(ppu.bg1_state, ppu.bg1, ppu.background@, x, y, w1, w2, i) {
                bg_pixels(ppu.bg1_state, ppu.bg1, ppu.background@, x, y)[i]
            } else if k0 >= 0 {
                sprite_pixels(c0[k0], plane, x, y)[i]
            } else if bg_writes_main(ppu.bg0_state, ppu.bg0, ppu.background@, x, y, w1, w2, i) {
                bg_pixels(ppu.bg0_state, ppu.bg0, ppu.background@, x, y)[i]
            } else {
                fill_main(ppu.main_state)
            }
        }),
{
    let w1 = ppu.window_1(x);
    let w2 = ppu.window_2(x);
    let plane = ppu.sprites@;
    let m0 = crate::lanes::splat(fill_main(ppu.main_state));
    let m1 = if ppu.bg0_state.enable {
        bg_main(ppu.bg0_state, ppu.bg0, ppu.background@, m0, x, y, w1, w2)
    } else {
        m0
    };
    let m2 = sprites_main(c0, plane, m1, x, y, w1, w2);
    let m3 = if ppu.bg1_state.enable {
        bg_main(ppu.bg1_state, ppu.bg1, ppu.background@, m2, x, y, w1, w2)
    } else {
        m2
    };
    lemma_bg_pixel_colour(ppu.bg0_state, ppu.bg0, ppu.background@, x, y, i);
    lemma_bg_pixel_colour(ppu.bg1_state, ppu.bg1, ppu.background@, x, y, i);
    lemma_sprites_last_writer(c0, plane, m1, x, y, w1, w2, i);
    lemma_sprites_last_writer(c1, plane, m3, x, y, w1, w2, i);
}

/// A priority-1 sprite that writes a lane of the main screen is what that
/// lane shows, whatever priority-0 sprites and backgrounds wrote there before
/// it; without colour math or fade the output is its repacked colour.
pub proof fn lemma_priority_one_on_top(
    ppu: SASPPU,
    c0: Seq<Sprite>,
    c1: Seq<Sprite>,
    x: int,
    y: int,
    i: int,
)
    requires
        0 <= i < 8,
        c1.len() > 0,
        sprite_writes_main(c1.last(), ppu.sprites@, x, y, ppu.window_1(x), ppu.window_2(x), i),
    ensures
        ppu.main_layers(c0, c1, x, y)[i] == sprite_pixels(c1.last(), ppu.sprites@, x, y)[i],
        !ppu.cmath_state.cmath_enable && !ppu.cmath_state.fade_enable ==> ppu.pixel_group(
            c0,
            c1,
            x,
            y,
        )[i] == repack(sprite_pixels(c1.last(), ppu.sprites@, x, y)[i]),
{
    lemma_layer_order(ppu, c0, c1, x, y, i);
    if !ppu.cmath_state.cmath_enable && !ppu.cmath_state.fade_enable {
        lemma_cmath_off_is_repack(
            ppu.cmath_state,
            ppu.main_layers(c0, c1, x, y),
            ppu.sub_layers(c0, c1, x, y),
        );
    }
}

/// Two scenes with the same contents render the same frame: the output
/// depends on the scene alone.
pub proof fn lemma_render_deterministic(a: SASPPU, b: SASPPU)
    requires
        a.main_state == b.main_state,
        a.bg0_state == b.bg0_state,
        a.bg1_state == b.bg1_state,
        a.cmath_state == b.cmath_state,
        a.oam == b.oam,
        a.bg0 == b.bg0,
        a.bg1 == b.bg1,
        a.background@ == b.background@,
        a.sprites@ == b.sprites@,
    ensures
        forall|y: int, x: int| #[trigger] a.frame_pixel(y, x) == b.frame_pixel(y, x),
{
}

/// Scrolling either background by a multiple of the plane's size, in
/// either direction, leaves every frame pixel unchanged when that
/// background's map repeats with the plane.
pub proof fn lemma_frame_scroll_wrap(a: SASPPU, b: SASPPU)
    requires
        a.main_state == b.main_state,
        a.cmath_state == b.cmath_state,
        a.oam == b.oam,
        a.bg0 == b.bg0,
        a.bg1 == b.bg1,
        a.background@ == b.background@,
        a.sprites@ == b.sprites@,
        b.bg0_state == (Background { scroll_x: b.bg0_state.scroll_x, scroll_y: b.bg0_state.scroll_y, ..a.bg0_state }),
        b.bg1_state == (Background { scroll_x: b.bg1_state.scroll_x, scroll_y: b.bg1_state.scroll_y, ..a.bg1_state }),
        (b.bg0_state.scroll_x - a.bg0_state.scroll_x) % 256 == 0,
        (b.bg0_state.scroll_y - a.bg0_state.scroll_y) % 256 == 0,
        (b.bg1_state.scroll_x - a.bg1_state.scroll_x) % 256 == 0,
        (b.bg1_state.scroll_y - a.bg1_state.scroll_y) % 256 == 0,
        map_repeats_per_plane(a.bg0),
        map_repeats_per_plane(a.bg1),
    ensures
        forall|y: int, x: int| #[trigger] a.frame_pixel(y, x) == b.frame_pixel(y, x),
{
    assert forall|y: int, x: int| #[trigger] a.frame_pixel(y, x) == b.frame_pixel(y, x) by {
        let gx = (x / 8) * 8;
        lemma_bg_scroll_wrap(a.bg0_state, b.bg0_state, a.bg0, a.background@, gx, y);
        lemma_bg_scroll_wrap(a.bg1_state, b.bg1_state, a.bg1, a.background@, gx, y);
    }
}

} // verus!
