//! The whole picture processing unit: scene, per-pixel-group compositing and
//! the frame renderer.
use vstd::prelude::*;

use crate::background::{bg_main, bg_sub, handle_bg, map_in_plane, select_correct_handle_bg, BgVariant, bg_variant};
use crate::cmath::{cmath_spec, handle_cmath, lemma_cmath_off_is_repack, repack_lanes};
use crate::lanes::splat;
use crate::scanline::{
    cache_list, first_gap, lemma_picks_from, per_scanline, picks, row_sprites, SpriteCache,
    SpriteCaches,
};
use crate::sprite::{handle_sprite, sprite_main, sprite_sub};
use crate::types::{
    Background, BackgroundMap, ColorMath, GraphicsPlane, Lanes, Mask, Sprite, SpritePlane,
    SpriteRow, State, SPR_ENABLED,
};
use crate::window::{column_window, window_mask};

verus! {

/// The main accumulator after the sprites of `list` are drawn in order.
pub open spec fn sprites_main(
    list: Seq<Sprite>,
    plane: Seq<SpriteRow>,
    main: Seq<u16>,
    x: int,
    y: int,
    w1: Seq<bool>,
    w2: Seq<bool>,
) -> Seq<u16>
    decreases list.len(),
{
    if list.len() == 0 {
        main
    } else {
        sprite_main(list.last(), plane, sprites_main(list.drop_last(), plane, main, x, y, w1, w2), x, y, w1, w2)
    }
}

/// The sub accumulator after the sprites of `list` are drawn in order.
pub open spec fn sprites_sub(
    list: Seq<Sprite>,
    plane: Seq<SpriteRow>,
    sub: Seq<u16>,
    x: int,
    y: int,
    w1: Seq<bool>,
    w2: Seq<bool>,
) -> Seq<u16>
    decreases list.len(),
{
    if list.len() == 0 {
        sub
    } else {
        sprite_sub(list.last(), plane, sprites_sub(list.drop_last(), plane, sub, x, y, w1, w2), x, y, w1, w2)
    }
}

/// The main-screen fill colour, with the participation bit when colour math
/// is on by default.
pub open spec fn fill_main(st: State) -> u16 {
    st.mainscreen_colour | (if st.cmath_default {
        0x8000u16
    } else {
        0u16
    })
}

pub struct SASPPU {
    pub main_state: State,
    pub bg0_state: Background,
    pub bg1_state: Background,
    pub cmath_state: ColorMath,
    pub oam: [Sprite; 256],
    pub bg0: BackgroundMap,
    pub bg1: BackgroundMap,
    pub background: GraphicsPlane,
    pub sprites: SpritePlane,
}

/// The specialisation of the per-pixel-group routine chosen for a scanline.
#[derive(Debug, Clone, Copy)]
pub struct PixelVariant {
    pub bg0_enable: bool,
    pub bg1_enable: bool,
    pub spr0_enable: bool,
    pub spr1_enable: bool,
    pub cmath_enable: bool,
}

impl SASPPU {
    /// The planes have their fixed sizes, every enabled background's map names
    /// tiles inside the graphics plane, and every sprite visible on some row
    /// has its texels inside the sprite plane.
    pub open spec fn wf(&self) -> bool {
        &&& self.background@.len() == 8192
        &&& self.sprites@.len() == 256
        &&& self.bg0_state.enable ==> map_in_plane(self.bg0)
        &&& self.bg1_state.enable ==> map_in_plane(self.bg1)
        &&& forall|i: int, y: int|
            0 <= i < 256 && 0 <= y < 240 && (#[trigger] self.oam@[i].visible_on(y))
                ==> self.oam@[i].fits_plane()
    }

    pub open spec fn window_1(&self, x: int) -> Seq<bool> {
        column_window(x, self.main_state.window_1_left, self.main_state.window_1_right)
    }

    pub open spec fn window_2(&self, x: int) -> Seq<bool> {
        column_window(x, self.main_state.window_2_left, self.main_state.window_2_right)
    }

    /// The main accumulator after BG0, the priority-0 sprites `c0`, BG1 and
    /// the priority-1 sprites `c1`.
    pub open spec fn main_layers(&self, c0: Seq<Sprite>, c1: Seq<Sprite>, x: int, y: int) -> Seq<u16> {
        let w1 = self.window_1(x);
        let w2 = self.window_2(x);
        let m0 = splat(fill_main(self.main_state));
        let m1 = if self.bg0_state.enable {
            bg_main(self.bg0_state, self.bg0, self.background@, m0, x, y, w1, w2)
        } else {
            m0
        };
        let m2 = sprites_main(c0, self.sprites@, m1, x, y, w1, w2);
        let m3 = if self.bg1_state.enable {
            bg_main(self.bg1_state, self.bg1, self.background@, m2, x, y, w1, w2)
        } else {
            m2
        };
        sprites_main(c1, self.sprites@, m3, x, y, w1, w2)
    }

    /// The sub accumulator after the same layers.
    pub open spec fn sub_layers(&self, c0: Seq<Sprite>, c1: Seq<Sprite>, x: int, y: int) -> Seq<u16> {
        let w1 = self.window_1(x);
        let w2 = self.window_2(x);
        let s0 = splat(self.main_state.subscreen_colour);
        let s1 = if self.bg0_state.enable {
            bg_sub(self.bg0_state, self.bg0, self.background@, s0, x, y, w1, w2)
        } else {
            s0
        };
        let s2 = sprites_sub(c0, self.sprites@, s1, x, y, w1, w2);
        let s3 = if self.bg1_state.enable {
            bg_sub(self.bg1_state, self.bg1, self.background@, s2, x, y, w1, w2)
        } else {
            s2
        };
        sprites_sub(c1, self.sprites@, s3, x, y, w1, w2)
    }

    /// The eight output pixels of the column group at `(x, y)` with sprite
    /// lists `c0` and `c1`.
    pub open spec fn pixel_group(&self, c0: Seq<Sprite>, c1: Seq<Sprite>, x: int, y: int) -> Seq<u16> {
        cmath_spec(self.cmath_state, self.main_layers(c0, c1, x, y), self.sub_layers(c0, c1, x, y))
    }

    /// The output pixel at row `y`, column `x` of a rendered frame.
    pub open spec fn frame_pixel(&self, y: int, x: int) -> u16 {
        self.pixel_group(
            row_sprites(self.oam@, y, false),
            row_sprites(self.oam@, y, true),
            (x / 8) * 8,
            y,
        )[x % 8]
    }

    pub open spec fn pixel_variant(&self, caches: SpriteCaches) -> PixelVariant {
        PixelVariant {
            bg0_enable: self.bg0_state.enable,
            bg1_enable: self.bg1_state.enable,
            spr0_enable: caches@[0]@[0] is Some,
            spr1_enable: caches@[1]@[0] is Some,
            cmath_enable: self.cmath_state.fade_enable || self.cmath_state.cmath_enable,
        }
    }

    /// Picks the per-pixel-group variant for the current scanline.
    pub fn select_correct_per_pixel(&self, caches: &SpriteCaches) -> (r: PixelVariant)
        ensures
            r == self.pixel_variant(*caches),
    {
        PixelVariant {
            bg0_enable: self.bg0_state.enable,
            bg1_enable: self.bg1_state.enable,
            spr0_enable: caches[0][0].is_some(),
            spr1_enable: caches[1][0].is_some(),
            cmath_enable: self.cmath_state.fade_enable || self.cmath_state.cmath_enable,
        }
    }

    /// Draws the sprites held in `cache`, up to its terminator, in order.
    fn draw_sprites(
        &self,
        cache: &SpriteCache,
        main_col: &mut Lanes,
        sub_col: &mut Lanes,
        x: u8,
        y: u8,
        window_1: Mask,
        window_2: Mask,
    )
        requires
            self.wf(),
            cache_ready(cache@, y as int),
        ensures
            final(main_col)@ == sprites_main(
                cache_list(cache@),
                self.sprites@,
                old(main_col)@,
                x as int,
                y as int,
                window_1@,
                window_2@,
            ),
            final(sub_col)@ == sprites_sub(
                cache_list(cache@),
                self.sprites@,
                old(sub_col)@,
                x as int,
                y as int,
                window_1@,
                window_2@,
            ),
    {
        let ghost list = cache_list(cache@);
        let ghost main0 = main_col@;
        let ghost sub0 = sub_col@;
        let mut j: usize = 0;
        while j < 16 && cache[j].is_some()
            invariant
                j <= 16,
                self.wf(),
                cache_ready(cache@, y as int),
                list == cache_list(cache@),
                first_gap(cache@, 0) == first_gap(cache@, j as int),
                forall|k: int| 0 <= k < j ==> cache@[k] is Some,
                main_col@ == sprites_main(list.take(j as int), self.sprites@, main0, x as int, y as int, window_1@, window_2@),
                sub_col@ == sprites_sub(list.take(j as int), self.sprites@, sub0, x as int, y as int, window_1@, window_2@),
            decreases 16 - j,
        {
            let spr = cache[j].unwrap();
            proof {
                lemma_gap_after(cache@, j as int);
                assert(list.take(j + 1).drop_last() =~= list.take(j as int));
                assert(list[j as int] == spr);
            }
            handle_sprite(&spr, &self.sprites, main_col, sub_col, x as i16, y as i16, window_1, window_2);
            j += 1;
        }
        proof {
            lemma_gap_at(cache@, j as int);
            assert(list.take(j as int) =~= list);
        }
    }

    /// Composites the column group `x .. x + 7` of row `y` and returns its
    /// eight output pixels.
    pub fn per_pixel(
        &self,
        variant: PixelVariant,
        x: u8,
        y: u8,
        sprite_caches: &SpriteCaches,
        handle_bg0: BgVariant,
        handle_bg1: BgVariant,
    ) -> (r: Lanes)
        requires
            self.wf(),
            variant == self.pixel_variant(*sprite_caches),
            handle_bg0 == bg_variant(self.bg0_state),
            handle_bg1 == bg_variant(self.bg1_state),
            cache_ready(sprite_caches@[0]@, y as int),
            cache_ready(sprite_caches@[1]@, y as int),
        ensures
            r@ == self.pixel_group(
                cache_list(sprite_caches@[0]@),
                cache_list(sprite_caches@[1]@),
                x as int,
                y as int,
            ),
    {
        let ghost c0 = cache_list(sprite_caches@[0]@);
        let ghost c1 = cache_list(sprite_caches@[1]@);
        let fill: u16 = self.main_state.mainscreen_colour | if self.main_state.cmath_default {
            0x8000u16
        } else {
            0u16
        };
        let mut main_col: Lanes = [fill; 8];
        let mut sub_col: Lanes = [self.main_state.subscreen_colour; 8];
        assert(main_col@ =~= splat(fill_main(self.main_state)));
        assert(sub_col@ =~= splat(self.main_state.subscreen_colour));
        let window_1 = window_mask(x, self.main_state.window_1_left, self.main_state.window_1_right);
        let window_2 = window_mask(x, self.main_state.window_2_left, self.main_state.window_2_right);
        if variant.bg0_enable {
            handle_bg(&self.bg0_state, handle_bg0, &self.bg0, &self.background, &mut main_col, &mut sub_col, x as i16, y as i16, window_1, window_2);
        }
        if variant.spr0_enable {
            self.draw_sprites(&sprite_caches[0], &mut main_col, &mut sub_col, x, y, window_1, window_2);
        } else {
            proof {
                lemma_gap_at(sprite_caches@[0]@, 0);
                assert(c0 =~= Seq::<Sprite>::empty());
            }
        }
        if variant.bg1_enable {
            handle_bg(&self.bg1_state, handle_bg1, &self.bg1, &self.background, &mut main_col, &mut sub_col, x as i16, y as i16, window_1, window_2);
        }
        if variant.spr1_enable {
            self.draw_sprites(&sprite_caches[1], &mut main_col, &mut sub_col, x, y, window_1, window_2);
        } else {
            proof {
                lemma_gap_at(sprite_caches@[1]@, 0);
                assert(c1 =~= Seq::<Sprite>::empty());
            }
        }
        assert(main_col@ == self.main_layers(c0, c1, x as int, y as int));
        assert(sub_col@ == self.sub_layers(c0, c1, x as int, y as int));
        if variant.cmath_enable {
            handle_cmath(&self.cmath_state, &mut main_col, &sub_col);
        } else {
            proof {
                lemma_cmath_off_is_repack(self.cmath_state, main_col@, sub_col@);
            }
            repack_lanes(&mut main_col);
        }
        main_col
    }

    /// Renders a whole frame into `screen`, using `sprite_caches` as scratch.
    pub fn render(&self, sprite_caches: &mut SpriteCaches, screen: &mut [[u16; 240]; 240])
        requires
            self.wf(),
        ensures
            forall|y: int, x: int|
                0 <= y < 240 && 0 <= x < 240 ==> (#[trigger] final(screen)@[y]@[x]) == self.frame_pixel(y, x),
    {
        let handle_bg0 = select_correct_handle_bg(&self.bg0_state);
        let handle_bg1 = select_correct_handle_bg(&self.bg1_state);
        let mut y: u8 = 0;
        while y < 240
            invariant
                y <= 240,
                self.wf(),
                handle_bg0 == bg_variant(self.bg0_state),
                handle_bg1 == bg_variant(self.bg1_state),
                forall|yy: int, x: int|
                    0 <= yy < y && 0 <= x < 240 ==> (#[trigger] screen@[yy]@[x]) == self.frame_pixel(yy, x),
            decreases 240 - y,
        {
            per_scanline(&self.oam, y, sprite_caches);
            proof {
                self.lemma_row_caches_ready(*sprite_caches, y as int);
            }
            let variant = self.select_correct_per_pixel(sprite_caches);
            let mut row: [u16; 240] = screen[y as usize];
            let mut gx: u8 = 0;
            while gx < 30
                invariant
                    gx <= 30,
                    y < 240,
                    self.wf(),
                    handle_bg0 == bg_variant(self.bg0_state),
                    handle_bg1 == bg_variant(self.bg1_state),
                    variant == self.pixel_variant(*sprite_caches),
                    cache_ready(sprite_caches@[0]@, y as int),
                    cache_ready(sprite_caches@[1]@, y as int),
                    forall|p: int| 0 <= p < 2 ==> cache_list((#[trigger] sprite_caches@[p])@) == row_sprites(self.oam@, y as int, p == 1),
                    forall|x: int| 0 <= x < 8 * gx ==> (#[trigger] row@[x]) == self.frame_pixel(y as int, x),
                decreases 30 - gx,
            {
                let col = self.per_pixel(variant, gx * 8, y, sprite_caches, handle_bg0, handle_bg1);
                let base: usize = gx as usize * 8;
                let mut l: usize = 0;
                while l < 8
                    invariant
                        l <= 8,
                        base == 8 * gx,
                        gx < 30,
                        y < 240,
                        col@ == self.pixel_group(
                            row_sprites(self.oam@, y as int, false),
                            row_sprites(self.oam@, y as int, true),
                            base as int,
                            y as int,
                        ),
                        forall|x: int| 0 <= x < base + l ==> (#[trigger] row@[x]) == self.frame_pixel(y as int, x),
                    decreases 8 - l,
                {
                    row[base + l] = col[l];
                    assert((base + l) / 8 == gx as int && (base + l) % 8 == l as int);
                    l += 1;
                }
                gx += 1;
            }
            screen[y as usize] = row;
            y += 1;
        }
    }

    /// The sprites `per_scanline` leaves in the caches can be drawn on row `y`.
    proof fn lemma_row_caches_ready(&self, caches: SpriteCaches, y: int)
        requires
            self.wf(),
            0 <= y < 240,
            forall|p: int| 0 <= p < 2 ==> cache_list((#[trigger] caches@[p])@) == row_sprites(self.oam@, y, p == 1),
        ensures
            cache_ready(caches@[0]@, y),
            cache_ready(caches@[1]@, y),
    {
        assert forall|p: int| 0 <= p < 2 implies cache_ready((#[trigger] caches@[p])@, y) by {
            let all = picks(self.oam@, y, p == 1);
            lemma_picks_from(self.oam@, y, p == 1);
            assert forall|j: int| 0 <= j < cache_list(caches@[p]@).len() implies {
                &&& (#[trigger] cache_list(caches@[p]@)[j]).fits_plane()
                &&& cache_list(caches@[p]@)[j].covers_row(y)
            } by {
                let s = cache_list(caches@[p]@)[j];
                assert(s == all[j]);
                let k = choose|k: int| 0 <= k < self.oam@.len() && self.oam@[k] == s;
                assert(self.oam@[k].visible_on(y));
            }
        }
    }

    pub fn new() -> (r: Self)
        ensures
            r.wf(),
            r.main_state == State::initial(),
            r.bg0_state == Background::initial(),
            r.bg1_state == Background::initial(),
            r.cmath_state == ColorMath::initial(),
            forall|i: int| 0 <= i < 256 ==> #[trigger] r.oam@[i] == Sprite::initial(),
            forall|i: int, j: int| 0 <= i < 64 && 0 <= j < 64 ==> #[trigger] r.bg0@[i]@[j] == 16 && r.bg1@[i]@[j] == 16,
            forall|i: int, l: int| 0 <= i < 8192 && 0 <= l < 8 ==> #[trigger] r.background@[i]@[l] == 0,
            forall|i: int, j: int, l: int|
                0 <= i < 256 && 0 <= j < 32 && 0 <= l < 8 ==> #[trigger] r.sprites@[i]@[j]@[l] == 0,
    {
        let zero: Lanes = [0u16; 8];
        let mut background: GraphicsPlane = Vec::new();
        while background.len() < 8192
            invariant
                background@.len() <= 8192,
                forall|i: int| 0 <= i < background@.len() ==> #[trigger] background@[i] == zero,
            decreases 8192 - background@.len(),
        {
            background.push(zero);
        }
        let blank_row: SpriteRow = [zero; 32];
        let mut sprites: SpritePlane = Vec::new();
        while sprites.len() < 256
            invariant
                sprites@.len() <= 256,
                forall|i: int| 0 <= i < sprites@.len() ==> #[trigger] sprites@[i] == blank_row,
            decreases 256 - sprites@.len(),
        {
            sprites.push(blank_row);
        }
        let spr = Sprite::new();
        let mut oam: [Sprite; 256] = [spr; 256];
        let mut i: usize = 0;
        while i < 256
            invariant
                i <= 256,
                forall|j: int| 0 <= j < i ==> #[trigger] oam@[j] == spr,
            decreases 256 - i,
        {
            oam[i] = spr;
            i += 1;
        }
        let r = SASPPU {
            main_state: State::new(),
            bg0_state: Background::new(),
            bg1_state: Background::new(),
            cmath_state: ColorMath::new(),
            oam,
            bg0: [[16u16; 64]; 64],
            bg1: [[16u16; 64]; 64],
            background,
            sprites,
        };
        assert(16u16 >> 3u16 == 2) by (bit_vector);
        assert(1u16 << 0u16 == 1u16 && 0u16 & 1u16 == 0) by (bit_vector);
        assert(SPR_ENABLED == 1u16);
        r
    }
}

/// Every sprite a cache holds before its terminator can be drawn on row `y`.
pub open spec fn cache_ready(c: Seq<Option<Sprite>>, y: int) -> bool {
    forall|j: int|
        0 <= j < cache_list(c).len() ==> {
            &&& (#[trigger] cache_list(c)[j]).fits_plane()
            &&& cache_list(c)[j].covers_row(y)
        }
}

proof fn lemma_gap_after(c: Seq<Option<Sprite>>, j: int)
    requires
        0 <= j < c.len(),
        c[j] is Some,
        first_gap(c, 0) == first_gap(c, j),
        forall|k: int| 0 <= k < j ==> c[k] is Some,
    ensures
        first_gap(c, 0) == first_gap(c, j + 1),
        j < first_gap(c, 0),
    decreases c.len() - j,
{
    lemma_gap_bound(c, j + 1);
}

proof fn lemma_gap_bound(c: Seq<Option<Sprite>>, i: int)
    requires
        0 <= i,
    ensures
        first_gap(c, i) >= i,
    decreases c.len() - i,
{
    if i < c.len() && c[i] is Some {
        lemma_gap_bound(c, i + 1);
    }
}

proof fn lemma_gap_at(c: Seq<Option<Sprite>>, j: int)
    requires
        0 <= j <= c.len(),
        j == c.len() || c[j] is None,
    ensures
        first_gap(c, j) == j,
{
}

impl Default for SASPPU {
    fn default() -> (r: Self)
        ensures
            r.wf(),
    {
        Self::new()
    }
}

} // verus!
