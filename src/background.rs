//! Background sampling: two adjacent map cells, their tile rows with flips,
//! realigned to the scroll offset, then windowed into the accumulators.
use vstd::prelude::*;

use crate::lanes::{
    aligned, lemma_cmath_bit_keeps_colour, opaque, overwrite, overwrite_lanes, reverse_lanes, reversed, set_cmath_bit,
    swimzleoo, with_cmath_bit,
};
use crate::types::{Background, BackgroundMap, GraphicsPlane, Lanes, Mask};
use crate::window::{get_window, lemma_window_identity, window_spec};

verus! {

/// `v` reduced to the 16-bit range, as the coordinate sum wraps.
pub open spec fn wrap16(v: int) -> int {
    v % 65536
}

/// Every cell of `map` names a tile whose eight rows lie in the graphics plane.
pub open spec fn map_in_plane(map: BackgroundMap) -> bool {
    forall|r: int, c: int| 0 <= r < 64 && 0 <= c < 64 ==> (#[trigger] map@[r]@[c] >> 3u16) < 7968
}

/// The row of a cell's tile at fine offset `fine_y`, with the cell's flips.
pub open spec fn cell_row(cell: u16, fine_y: int, gfx: Seq<Lanes>) -> Seq<u16> {
    let row = if cell & 2 != 0 {
        7 - fine_y
    } else {
        fine_y
    };
    let v = gfx[(cell >> 3u16) as int + row * 32]@;
    if cell & 1 != 0 {
        reversed(v)
    } else {
        v
    }
}

/// Scrolled horizontal position of column `x`, in the 16-bit range.
pub open spec fn scrolled_x(state: Background, x: int) -> int {
    wrap16(x + state.scroll_x)
}

/// Scrolled vertical position of row `y`, in the 16-bit range.
pub open spec fn scrolled_y(state: Background, y: int) -> int {
    wrap16(y + state.scroll_y)
}

/// Map row read for row `y`.
pub open spec fn map_row(state: Background, y: int) -> int {
    (scrolled_y(state, y) / 8) % 64
}

/// First map column read for the column group at `x`; the second is the
/// next one, wrapping.
pub open spec fn map_col(state: Background, x: int) -> int {
    (scrolled_x(state, x) / 8) % 64
}

/// The eight texels sampled for the column group at `(x, y)`, before the
/// participation bit is set.
pub open spec fn bg_texels(
    state: Background,
    map: BackgroundMap,
    gfx: Seq<Lanes>,
    x: int,
    y: int,
) -> Seq<u16> {
    let r = map_row(state, y);
    let c1 = map_col(state, x);
    let c2 = (c1 + 1) % 64;
    aligned(
        cell_row(map@[r]@[c1], scrolled_y(state, y) % 8, gfx),
        cell_row(map@[r]@[c2], scrolled_y(state, y) % 8, gfx),
        scrolled_x(state, x) % 8,
    )
}

/// The eight background pixels for the column group at `(x, y)`.
pub open spec fn bg_pixels(
    state: Background,
    map: BackgroundMap,
    gfx: Seq<Lanes>,
    x: int,
    y: int,
) -> Seq<u16> {
    let px = bg_texels(state, map, gfx, x, y);
    if state.cmath_enable {
        with_cmath_bit(px)
    } else {
        px
    }
}

/// The main accumulator after this background is drawn over `main`.
pub open spec fn bg_main(
    state: Background,
    map: BackgroundMap,
    gfx: Seq<Lanes>,
    main: Seq<u16>,
    x: int,
    y: int,
    w1: Seq<bool>,
    w2: Seq<bool>,
) -> Seq<u16> {
    if state.main_screen_enable {
        overwrite(main, bg_pixels(state, map, gfx, x, y), window_spec(state.main_window_log, w1, w2))
    } else {
        main
    }
}

/// The sub accumulator after this background is drawn over `sub`.
pub open spec fn bg_sub(
    state: Background,
    map: BackgroundMap,
    gfx: Seq<Lanes>,
    sub: Seq<u16>,
    x: int,
    y: int,
    w1: Seq<bool>,
    w2: Seq<bool>,
) -> Seq<u16> {
    if state.sub_screen_enable {
        overwrite(sub, bg_pixels(state, map, gfx, x, y), window_spec(state.sub_window_log, w1, w2))
    } else {
        sub
    }
}

/// How a window function is evaluated: a constant or lane by lane.
#[derive(Debug, Clone, Copy)]
pub enum WindowKind {
    Never,
    Always,
    Mixed,
}

pub open spec fn window_kind(f: u8) -> WindowKind {
    if f == 0 {
        WindowKind::Never
    } else if f == 15 {
        WindowKind::Always
    } else {
        WindowKind::Mixed
    }
}

/// The specialisation of the background handler chosen for one background.
#[derive(Debug, Clone, Copy)]
pub struct BgVariant {
    pub cmath_enable: bool,
    pub main_screen_enable: bool,
    pub sub_screen_enable: bool,
    pub main_window: WindowKind,
    pub sub_window: WindowKind,
}

pub open spec fn bg_variant(state: Background) -> BgVariant {
    BgVariant {
        cmath_enable: state.cmath_enable,
        main_screen_enable: state.main_screen_enable,
        sub_screen_enable: state.sub_screen_enable,
        main_window: window_kind(state.main_window_log),
        sub_window: window_kind(state.sub_window_log),
    }
}

fn select_window_kind(f: u8) -> (r: WindowKind)
    ensures
        r == window_kind(f),
{
    if f == 0 {
        WindowKind::Never
    } else if f == 15 {
        WindowKind::Always
    } else {
        WindowKind::Mixed
    }
}

/// Picks the handler variant for the current flags of a background.
pub fn select_correct_handle_bg(state: &Background) -> (r: BgVariant)
    ensures
        r == bg_variant(*state),
{
    BgVariant {
        cmath_enable: state.cmath_enable,
        main_screen_enable: state.main_screen_enable,
        sub_screen_enable: state.sub_screen_enable,
        main_window: select_window_kind(state.main_window_log),
        sub_window: select_window_kind(state.sub_window_log),
    }
}

/// Evaluates a window function through the variant's fast path.
fn variant_window(kind: WindowKind, f: u8, window_1: Mask, window_2: Mask) -> (r: Mask)
    requires
        kind == window_kind(f),
    ensures
        r@ == window_spec(f, window_1@, window_2@),
{
    proof {
        lemma_window_identity(window_1@, window_2@);
    }
    match kind {
        WindowKind::Never => {
            let r: Mask = [false; 8];
            assert(r@ =~= window_spec(f, window_1@, window_2@));
            r
        },
        WindowKind::Always => {
            let r: Mask = [true; 8];
            assert(r@ =~= window_spec(f, window_1@, window_2@));
            r
        },
        WindowKind::Mixed => get_window(f, window_1, window_2),
    }
}

/// Fetches the tile row of `cell` at fine offset `fine_y`, flipped as the
/// cell says.
pub fn fetch_tile_row(cell: u16, fine_y: usize, graphics: &GraphicsPlane) -> (r: Lanes)
    requires
        fine_y < 8,
        graphics@.len() == 8192,
        (cell >> 3u16) < 7968,
    ensures
        r@ == cell_row(cell, fine_y as int, graphics@),
{
    let row: usize = if cell & 2 != 0 {
        7 - fine_y
    } else {
        fine_y
    };
    let v = graphics[(cell >> 3) as usize + row * 32];
    if cell & 1 != 0 {
        reverse_lanes(v)
    } else {
        v
    }
}

/// Samples one background for the column group at `(x, y)` and draws it
/// into the main and sub accumulators.
pub fn handle_bg(
    state: &Background,
    variant: BgVariant,
    map: &BackgroundMap,
    graphics: &GraphicsPlane,
    main_col: &mut Lanes,
    sub_col: &mut Lanes,
    x: i16,
    y: i16,
    window_1: Mask,
    window_2: Mask,
)
    requires
        variant == bg_variant(*state),
        map_in_plane(*map),
        graphics@.len() == 8192,
    ensures
        final(main_col)@ == bg_main(
            *state,
            *map,
            graphics@,
            old(main_col)@,
            x as int,
            y as int,
            window_1@,
            window_2@,
        ),
        final(sub_col)@ == bg_sub(
            *state,
            *map,
            graphics@,
            old(sub_col)@,
            x as int,
            y as int,
            window_1@,
            window_2@,
        ),
{
    let sx: u32 = ((x as i32 + state.scroll_x as i32 + 65536) as u32) % 65536;
    let sy: u32 = ((y as i32 + state.scroll_y as i32 + 65536) as u32) % 65536;
    assert(sx == wrap16(x + state.scroll_x));
    assert(sy == wrap16(y + state.scroll_y));
    let r = ((sy / 8) % 64) as usize;
    let c1 = ((sx / 8) % 64) as usize;
    let c2 = (c1 + 1) % 64;
    let fine_x = (sx % 8) as usize;
    let fine_y = (sy % 8) as usize;
    let cell_1 = map[r][c1];
    let cell_2 = map[r][c2];
    assert((cell_1 >> 3u16) < 7968);
    assert((cell_2 >> 3u16) < 7968);
    let row_1 = fetch_tile_row(cell_1, fine_y, graphics);
    let row_2 = fetch_tile_row(cell_2, fine_y, graphics);
    let mut px = swimzleoo(row_1, row_2, fine_x);
    if variant.cmath_enable {
        px = set_cmath_bit(px);
    }
    assert(px@ == bg_pixels(*state, *map, graphics@, x as int, y as int));
    let main_window = variant_window(variant.main_window, state.main_window_log, window_1, window_2);
    if variant.main_screen_enable {
        *main_col = overwrite_lanes(*main_col, px, main_window);
    }
    let sub_window = variant_window(variant.sub_window, state.sub_window_log, window_1, window_2);
    if variant.sub_screen_enable {
        *sub_col = overwrite_lanes(*sub_col, px, sub_window);
    }
}

/// The pixel this background draws has the low 15 bits of its texel: the
/// participation bit never makes a transparent texel opaque.
pub proof fn lemma_bg_pixel_colour(
    state: Background,
    map: BackgroundMap,
    gfx: Seq<Lanes>,
    x: int,
    y: int,
    i: int,
)
    requires
        0 <= i < 8,
    ensures
        opaque(bg_pixels(state, map, gfx, x, y)[i]) == opaque(bg_texels(state, map, gfx, x, y)[i]),
{
    lemma_cmath_bit_keeps_colour(bg_texels(state, map, gfx, x, y)[i]);
}

/// A lane whose texel has zero low 15 bits leaves both accumulators as they
/// were, with or without colour math on the background.
pub proof fn lemma_bg_transparent(
    state: Background,
    map: BackgroundMap,
    gfx: Seq<Lanes>,
    main: Seq<u16>,
    sub: Seq<u16>,
    x: int,
    y: int,
    w1: Seq<bool>,
    w2: Seq<bool>,
    i: int,
)
    requires
        0 <= i < 8,
        bg_texels(state, map, gfx, x, y)[i] & 0x7FFF == 0,
    ensures
        bg_main(state, map, gfx, main, x, y, w1, w2)[i] == main[i],
        bg_sub(state, map, gfx, sub, x, y, w1, w2)[i] == sub[i],
{
    lemma_bg_pixel_colour(state, map, gfx, x, y, i);
}

/// With both window functions 15 and both screens enabled, every lane whose
/// texel is not transparent takes the background's pixel in both
/// accumulators; with both functions 0, the background changes neither.
pub proof fn lemma_bg_window_totality(
    state: Background,
    map: BackgroundMap,
    gfx: Seq<Lanes>,
    main: Seq<u16>,
    sub: Seq<u16>,
    x: int,
    y: int,
    w1: Seq<bool>,
    w2: Seq<bool>,
)
    requires
        main.len() == 8,
        sub.len() == 8,
    ensures
        state.main_window_log == 15 && state.sub_window_log == 15 && state.main_screen_enable
            && state.sub_screen_enable ==> forall|i: int|
            0 <= i < 8 && opaque(#[trigger] bg_texels(state, map, gfx, x, y)[i]) ==> {
                &&& bg_main(state, map, gfx, main, x, y, w1, w2)[i] == bg_pixels(state, map, gfx, x, y)[i]
                &&& bg_sub(state, map, gfx, sub, x, y, w1, w2)[i] == bg_pixels(state, map, gfx, x, y)[i]
            },
        state.main_window_log == 0 && state.sub_window_log == 0 ==> {
            &&& bg_main(state, map, gfx, main, x, y, w1, w2) == main
            &&& bg_sub(state, map, gfx, sub, x, y, w1, w2) == sub
        },
{
    lemma_window_identity(w1, w2);
    assert forall|i: int| 0 <= i < 8 implies opaque(bg_pixels(state, map, gfx, x, y)[i]) == opaque(
        #[trigger] bg_texels(state, map, gfx, x, y)[i],
    ) by {
        lemma_bg_pixel_colour(state, map, gfx, x, y, i);
    }
    if state.main_window_log == 0 && state.sub_window_log == 0 {
        let px = bg_pixels(state, map, gfx, x, y);
        assert(overwrite(main, px, window_spec(0, w1, w2)) =~= main);
        assert(overwrite(sub, px, window_spec(0, w1, w2)) =~= sub);
    }
}

/// Toggling a cell's horizontal flip reverses its row, and toggling it twice
/// gives the original row; toggling the vertical flip reads the mirrored row,
/// and toggling it twice gives the original row.
pub proof fn lemma_cell_flip_involution(cell: u16, fine_y: int, gfx: Seq<Lanes>)
    requires
        0 <= fine_y < 8,
    ensures
        cell_row(cell ^ 1, fine_y, gfx) == reversed(cell_row(cell, fine_y, gfx)),
        cell_row((cell ^ 1) ^ 1, fine_y, gfx) == cell_row(cell, fine_y, gfx),
        cell_row(cell ^ 2, fine_y, gfx) == cell_row(cell, 7 - fine_y, gfx),
        cell_row((cell ^ 2) ^ 2, fine_y, gfx) == cell_row(cell, fine_y, gfx),
{
    assert((cell ^ 1) ^ 1 == cell && (cell ^ 2) ^ 2 == cell) by (bit_vector);
    assert((cell ^ 1) >> 3u16 == cell >> 3u16 && (cell ^ 2) >> 3u16 == cell >> 3u16) by (bit_vector);
    assert(((cell ^ 1) & 2 != 0) == (cell & 2 != 0) && ((cell ^ 1) & 1 != 0) == !(cell & 1 != 0))
        by (bit_vector);
    assert(((cell ^ 2) & 2 != 0) == !(cell & 2 != 0) && ((cell ^ 2) & 1 != 0) == (cell & 1 != 0))
        by (bit_vector);
    let row = if cell & 2 != 0 {
        7 - fine_y
    } else {
        fine_y
    };
    let v = gfx[(cell >> 3u16) as int + row * 32]@;
    assert(reversed(reversed(v)) =~= v);
}

/// Toggling the horizontal flip of the first cell a column group reads
/// mirrors that cell's row: each lane read from it shows texel `7 - col`
/// where it showed texel `col`; lanes read from the next cell are unchanged.
pub proof fn lemma_bg_flip_x_lanes(
    state: Background,
    map: BackgroundMap,
    flipped: BackgroundMap,
    gfx: Seq<Lanes>,
    x: int,
    y: int,
)
    requires
        flipped@[map_row(state, y)]@[map_col(state, x)] == map@[map_row(state, y)]@[map_col(
            state,
            x,
        )] ^ 1,
        forall|r: int, c: int|
            0 <= r < 64 && 0 <= c < 64 && (r != map_row(state, y) || c != map_col(state, x))
                ==> #[trigger] flipped@[r]@[c] == map@[r]@[c],
    ensures
        forall|i: int|
            0 <= i < 8 - scrolled_x(state, x) % 8 ==> #[trigger] bg_texels(state, flipped, gfx, x, y)[i]
                == cell_row(
                map@[map_row(state, y)]@[map_col(state, x)],
                scrolled_y(state, y) % 8,
                gfx,
            )[7 - (i + scrolled_x(state, x) % 8)],
        forall|i: int|
            8 - scrolled_x(state, x) % 8 <= i < 8 ==> #[trigger] bg_texels(state, flipped, gfx, x, y)[i]
                == bg_texels(state, map, gfx, x, y)[i],
{
    let r = map_row(state, y);
    let c1 = map_col(state, x);
    let c2 = (c1 + 1) % 64;
    assert(flipped@[r]@[c2] == map@[r]@[c2]);
    lemma_cell_flip_involution(map@[r]@[c1], scrolled_y(state, y) % 8, gfx);
}

/// Toggling the vertical flip of the first cell a column group reads makes
/// the lanes read from it sample tile row `7 - fine_y` instead of `fine_y`;
/// lanes read from the next cell are unchanged.
pub proof fn lemma_bg_flip_y_lanes(
    state: Background,
    map: BackgroundMap,
    flipped: BackgroundMap,
    gfx: Seq<Lanes>,
    x: int,
    y: int,
)
    requires
        flipped@[map_row(state, y)]@[map_col(state, x)] == map@[map_row(state, y)]@[map_col(
            state,
            x,
        )] ^ 2,
        forall|r: int, c: int|
            0 <= r < 64 && 0 <= c < 64 && (r != map_row(state, y) || c != map_col(state, x))
                ==> #[trigger] flipped@[r]@[c] == map@[r]@[c],
    ensures
        forall|i: int|
            0 <= i < 8 - scrolled_x(state, x) % 8 ==> #[trigger] bg_texels(state, flipped, gfx, x, y)[i]
                == cell_row(
                map@[map_row(state, y)]@[map_col(state, x)],
                7 - scrolled_y(state, y) % 8,
                gfx,
            )[i + scrolled_x(state, x) % 8],
        forall|i: int|
            8 - scrolled_x(state, x) % 8 <= i < 8 ==> #[trigger] bg_texels(state, flipped, gfx, x, y)[i]
                == bg_texels(state, map, gfx, x, y)[i],
{
    let r = map_row(state, y);
    let c1 = map_col(state, x);
    let c2 = (c1 + 1) % 64;
    assert(flipped@[r]@[c2] == map@[r]@[c2]);
    lemma_cell_flip_involution(map@[r]@[c1], scrolled_y(state, y) % 8, gfx);
}

/// The map repeats every `BG_WIDTH / 8` cells across and every
/// `BG_HEIGHT / 8` cells down.
#[verifier::opaque]
pub open spec fn map_repeats_per_plane(map: BackgroundMap) -> bool {
    forall|r: int, c: int|
        0 <= r < 64 && 0 <= c < 64 ==> {
            &&& #[trigger] map@[r]@[c] == map@[r]@[(c + 32) % 64]
            &&& map@[r]@[c] == map@[(r + 32) % 64]@[c]
        }
}

proof fn lemma_wrap_step(a: int, b: int)
    requires
        (a - b) % 256 == 0,
    ensures
        wrap16(a) % 8 == wrap16(b) % 8,
        (wrap16(a) / 8) % 64 == (wrap16(b) / 8) % 64 || (wrap16(a) / 8) % 64 == ((wrap16(b) / 8) % 64
            + 32) % 64,
{
    let u = wrap16(a);
    let v = wrap16(b);
    assert(u % 256 == a % 256) by {
        vstd::arithmetic::div_mod::lemma_mod_mod(a, 256, 256);
    }
    assert(v % 256 == b % 256) by {
        vstd::arithmetic::div_mod::lemma_mod_mod(b, 256, 256);
    }
    assert(a % 256 == b % 256) by {
        vstd::arithmetic::div_mod::lemma_fundamental_div_mod(a - b, 256);
        vstd::arithmetic::div_mod::lemma_mod_multiples_vanish((a - b) / 256, b, 256);
    }
    let uu = u as u32;
    let vv = v as u32;
    assert(uu % 256 == vv % 256 ==> uu % 8 == vv % 8 && ((uu / 8) % 64 == (vv / 8) % 64 || (uu / 8)
        % 64 == ((vv / 8) % 64 + 32) % 64)) by (bit_vector);
}

proof fn lemma_same_cell(map: BackgroundMap, r1: int, c1: int, r2: int, c2: int)
    requires
        map_repeats_per_plane(map),
        0 <= r1 < 64,
        0 <= c1 < 64,
        r2 == r1 || r2 == (r1 + 32) % 64,
        c2 == c1 || c2 == (c1 + 32) % 64,
    ensures
        map@[r2]@[c2] == map@[r1]@[c1],
{
    reveal(map_repeats_per_plane);
    assert(map@[r1]@[c1] == map@[r1]@[(c1 + 32) % 64]);
    assert(map@[r1]@[c1] == map@[(r1 + 32) % 64]@[c1]);
    assert(map@[r1]@[(c1 + 32) % 64] == map@[(r1 + 32) % 64]@[(c1 + 32) % 64]);
}

/// Scrolling by a multiple of the plane's size in either direction leaves
/// the sampled pixels unchanged on a map that repeats with the plane.
#[verifier::rlimit(40)]
pub proof fn lemma_bg_scroll_wrap(
    state: Background,
    shifted: Background,
    map: BackgroundMap,
    gfx: Seq<Lanes>,
    x: int,
    y: int,
)
    requires
        map_repeats_per_plane(map),
        shifted == (Background { scroll_x: shifted.scroll_x, scroll_y: shifted.scroll_y, ..state }),
        (shifted.scroll_x - state.scroll_x) % 256 == 0,
        (shifted.scroll_y - state.scroll_y) % 256 == 0,
    ensures
        bg_pixels(shifted, map, gfx, x, y) == bg_pixels(state, map, gfx, x, y),
{
    lemma_wrap_step(x + shifted.scroll_x, x + state.scroll_x);
    lemma_wrap_step(y + shifted.scroll_y, y + state.scroll_y);
    let r = map_row(state, y);
    let c = map_col(state, x);
    let r2 = map_row(shifted, y);
    let d = map_col(shifted, x);
    lemma_same_cell(map, r, c, r2, d);
    assert((d + 1) % 64 == (c + 1) % 64 || (d + 1) % 64 == ((c + 1) % 64 + 32) % 64);
    lemma_same_cell(map, r, (c + 1) % 64, r2, (d + 1) % 64);
    assert(scrolled_x(shifted, x) % 8 == scrolled_x(state, x) % 8);
    assert(scrolled_y(shifted, y) % 8 == scrolled_y(state, y) % 8);
    assert(bg_texels(shifted, map, gfx, x, y) == bg_texels(state, map, gfx, x, y));
}

} // verus!
