use sasppu::background::{handle_bg, select_correct_handle_bg, BgVariant, WindowKind};
use sasppu::cmath::{handle_cmath, repack_lanes};
use sasppu::lanes::{interleave, overwrite_lanes, reverse_lanes, set_cmath_bit, swimzleoo};
use sasppu::ppu::SASPPU;
use sasppu::scanline::SpriteCaches;
use sasppu::sprite::handle_sprite;
use sasppu::types::{
    Background, ColorMath, Lanes, Sprite, State, SPR_DOUBLE, SPR_ENABLED, SPR_FLIP_X, SPR_FLIP_Y,
    SPR_MAIN_SCREEN, SPR_SUB_SCREEN,
};
use sasppu::window::window_mask;

const A: Lanes = [1, 2, 3, 4, 5, 6, 7, 8];
const B: Lanes = [9, 10, 11, 12, 13, 14, 15, 16];

#[test]
fn constructors_default_values() {
    let s = Sprite::new();
    assert_eq!((s.x, s.y, s.width, s.height, s.graphics_x, s.graphics_y, s.flags), (0, 0, 8, 8, 0, 0, 0));
    let d = Sprite::default();
    assert_eq!((d.width, d.height, d.flags), (8, 8, 0));
    let b = Background::new();
    assert_eq!((b.scroll_x, b.scroll_y, b.main_window_log, b.sub_window_log), (0, 0, 15, 15));
    assert!(!b.enable && !b.cmath_enable && !b.main_screen_enable && !b.sub_screen_enable);
    let c = ColorMath::new();
    assert_eq!(c.screen_fade, 0);
    assert!(!c.cmath_enable && !c.fade_enable && !c.add_sub_screen && !c.sub_sub_screen);
    let st = State::new();
    assert_eq!((st.window_1_left, st.window_1_right, st.window_2_left, st.window_2_right), (0, 255, 0, 255));
    let ppu = SASPPU::new();
    assert_eq!(ppu.bg0[63][63], 16);
    assert_eq!(ppu.background.len(), 8192);
    assert_eq!(ppu.sprites.len(), 256);
    let st2 = State::default();
    assert_eq!(st2.mainscreen_colour, 0);
}

#[test]
fn lane_alignment() {
    assert_eq!(swimzleoo(A, B, 0), A);
    assert_eq!(swimzleoo(A, B, 1), [2, 3, 4, 5, 6, 7, 8, 9]);
    assert_eq!(swimzleoo(A, B, 7), [8, 9, 10, 11, 12, 13, 14, 15]);
    assert_eq!(reverse_lanes(A), [8, 7, 6, 5, 4, 3, 2, 1]);
    assert_eq!(interleave(A, B), ([1, 9, 2, 10, 3, 11, 4, 12], [5, 13, 6, 14, 7, 15, 8, 16]));
    assert_eq!(set_cmath_bit([0, 1, 0x8000, 0x7FFF, 0, 0, 0, 0])[0..4], [0x8000, 0x8001, 0x8000, 0xFFFF]);
    let win = [true, true, false, false, true, true, true, true];
    assert_eq!(overwrite_lanes(B, [0x8000, 1, 2, 3, 0, 5, 6, 7], win), [9, 1, 11, 12, 13, 5, 6, 7]);
}

#[test]
fn column_windows() {
    let w = window_mask(8, 10, 13);
    assert_eq!(w, [false, false, true, true, true, false, false, false]);
    assert_eq!(window_mask(232, 0, 255), [true; 8]);
    assert_eq!(window_mask(232, 0, 236), [true, true, true, true, false, false, false, false]);
    assert_eq!(window_mask(0, 5, 5), [false; 8]);
}

#[test]
fn bg_variant_selection() {
    let mut b = Background::new();
    b.main_window_log = 0;
    b.sub_window_log = 7;
    b.cmath_enable = true;
    let v: BgVariant = select_correct_handle_bg(&b);
    assert!(matches!(v.main_window, WindowKind::Never));
    assert!(matches!(v.sub_window, WindowKind::Mixed));
    assert!(v.cmath_enable && !v.main_screen_enable);
    b.main_window_log = 15;
    assert!(matches!(select_correct_handle_bg(&b).main_window, WindowKind::Always));
}

#[test]
fn bg_scroll_and_flip() {
    let mut map = [[0u16; 64]; 64];
    map[1][2] = (4 << 3) | 1;
    map[1][3] = 5 << 3;
    let mut graphics = vec![[0u16; 8]; 8192];
    graphics[4 + 3 * 32] = A;
    graphics[5 + 3 * 32] = B;
    let mut state = Background::new();
    state.main_screen_enable = true;
    state.scroll_x = 16 + 3 - 40;
    state.scroll_y = 8 + 3 - 100;
    let v = select_correct_handle_bg(&state);
    let (mut main, mut sub): (Lanes, Lanes) = ([0; 8], [0; 8]);
    handle_bg(&state, v, &map, &graphics, &mut main, &mut sub, 40, 100, [true; 8], [true; 8]);
    assert_eq!(main, [5, 4, 3, 2, 1, 9, 10, 11]);
    assert_eq!(sub, [0; 8]);
    // negative coordinates wrap around the map
    state.scroll_x = -(64 * 8 - 16 - 3);
    state.scroll_y = 8 + 3 - 64 * 8;
    let (mut main, mut sub): (Lanes, Lanes) = ([0; 8], [0; 8]);
    handle_bg(&state, v, &map, &graphics, &mut main, &mut sub, 0, 0, [true; 8], [true; 8]);
    assert_eq!(main, [5, 4, 3, 2, 1, 9, 10, 11]);
    // flip y reads the mirrored row
    map[1][2] = (4 << 3) | 2;
    graphics[4 + 4 * 32] = B;
    state.scroll_x = 16;
    state.scroll_y = 8 + 3;
    let (mut main, mut sub): (Lanes, Lanes) = ([0; 8], [0; 8]);
    handle_bg(&state, v, &map, &graphics, &mut main, &mut sub, 0, 0, [true; 8], [true; 8]);
    assert_eq!(main, B);
}

fn sprite_plane() -> Vec<[Lanes; 32]> {
    let mut plane = vec![[[0u16; 8]; 32]; 256];
    for row in 0..16usize {
        for col in 0..2usize {
            let mut v = [0u16; 8];
            for (l, lane) in v.iter_mut().enumerate() {
                *lane = (row * 100 + col * 8 + l + 1) as u16;
            }
            plane[row][col] = v;
        }
    }
    plane
}

fn draw(s: &Sprite, plane: &Vec<[Lanes; 32]>, x: i16, y: i16) -> (Lanes, Lanes) {
    let (mut main, mut sub): (Lanes, Lanes) = ([0; 8], [0; 8]);
    handle_sprite(s, plane, &mut main, &mut sub, x, y, [true; 8], [false; 8]);
    (main, sub)
}

#[test]
fn sprite_offsets_and_screens() {
    let plane = sprite_plane();
    let mut s = Sprite::new();
    s.width = 16;
    s.height = 16;
    s.x = 2;
    s.y = 1;
    s.flags = SPR_ENABLED | SPR_MAIN_SCREEN | (0x1 << 8) | SPR_SUB_SCREEN | (0x2 << 12);
    let (main, sub) = draw(&s, &plane, 0, 4);
    assert_eq!(main, [0, 0, 301, 302, 303, 304, 305, 306]);
    assert_eq!(sub, [0; 8]);
    let (main, _) = draw(&s, &plane, 8, 4);
    assert_eq!(main, [307, 308, 309, 310, 311, 312, 313, 314]);
    let (main, _) = draw(&s, &plane, 16, 4);
    assert_eq!(main, [315, 316, 0, 0, 0, 0, 0, 0]);
    let (main, _) = draw(&s, &plane, 24, 4);
    assert_eq!(main, [0; 8]);
}

#[test]
fn sprite_flips() {
    let plane = sprite_plane();
    let mut s = Sprite::new();
    s.flags = SPR_ENABLED | SPR_MAIN_SCREEN | (0xF << 8) | SPR_FLIP_X;
    let (main, _) = draw(&s, &plane, 0, 0);
    assert_eq!(main, [8, 7, 6, 5, 4, 3, 2, 1]);
    s.flags = SPR_ENABLED | SPR_MAIN_SCREEN | (0xF << 8) | SPR_FLIP_Y;
    let (main, _) = draw(&s, &plane, 0, 2);
    assert_eq!(main, [501, 502, 503, 504, 505, 506, 507, 508]);
}

#[test]
fn sprite_double_size() {
    let plane = sprite_plane();
    let mut s = Sprite::new();
    s.flags = SPR_ENABLED | SPR_MAIN_SCREEN | (0xF << 8) | SPR_DOUBLE;
    let (main, _) = draw(&s, &plane, 0, 3);
    assert_eq!(main, [101, 101, 102, 102, 103, 103, 104, 104]);
    let (main, _) = draw(&s, &plane, 8, 3);
    assert_eq!(main, [105, 105, 106, 106, 107, 107, 108, 108]);
    let (main, _) = draw(&s, &plane, 16, 15);
    assert_eq!(main, [0; 8]);
    s.flags |= SPR_FLIP_X;
    let (main, _) = draw(&s, &plane, 0, 0);
    assert_eq!(main, [8, 8, 7, 7, 6, 6, 5, 5]);
    let (main, _) = draw(&s, &plane, 8, 0);
    assert_eq!(main, [4, 4, 3, 3, 2, 2, 1, 1]);
}

#[test]
fn cmath_formulas() {
    let sub: Lanes = [0x0421 * 4; 8];
    let mut cm = ColorMath::new();
    cm.cmath_enable = true;
    cm.add_sub_screen = true;
    let mut main: Lanes = [0x8000 | 0x0421 * 30, 0x0421 * 30, 0, 0, 0, 0, 0, 0];
    handle_cmath(&cm, &mut main, &sub);
    // saturates at 31 in the participating lane; the other lane is repacked
    assert_eq!(main[0], (31 << 11) | (31 << 6) | 31);
    assert_eq!(main[1], (30 << 11) | (30 << 6) | 30);
    cm.add_sub_screen = false;
    cm.half_main_screen = true;
    cm.double_sub_screen = true;
    cm.sub_sub_screen = true;
    let mut main: Lanes = [0x8000 | 0x0421 * 30; 8];
    handle_cmath(&cm, &mut main, &sub);
    assert_eq!(main[0], (7 << 11) | (7 << 6) | 7);
    cm = ColorMath::new();
    cm.cmath_enable = true;
    cm.double_main_screen = true;
    cm.half_sub_screen = true;
    cm.add_sub_screen = true;
    let mut main: Lanes = [0x8000 | (3 << 10) | (20 << 5) | 1; 8];
    handle_cmath(&cm, &mut main, &sub);
    assert_eq!(main[0], (8 << 11) | (31 << 6) | 4);
    let mut plain: Lanes = [0x7C00, 0x83E0, 0, 0, 0, 0, 0, 0x001F];
    repack_lanes(&mut plain);
    assert_eq!(plain, [0xF800, 0x07C0, 0, 0, 0, 0, 0, 0x001F]);
}

#[test]
fn sub_screen_feeds_cmath() {
    let mut ppu = SASPPU::new();
    ppu.main_state.mainscreen_colour = 0x0421 * 10;
    ppu.main_state.cmath_default = true;
    ppu.background[2] = [0x0421 * 3; 8];
    ppu.bg0_state.enable = true;
    ppu.bg0_state.sub_screen_enable = true;
    ppu.cmath_state.cmath_enable = true;
    ppu.cmath_state.add_sub_screen = true;
    let mut caches: SpriteCaches = [[None; 16]; 2];
    let mut screen = [[0u16; 240]; 240];
    ppu.render(&mut caches, &mut screen);
    assert_eq!(screen[16][33], (13 << 11) | (13 << 6) | 13);
    assert_eq!(screen[17][33], (10 << 11) | (10 << 6) | 10);
}

#[test]
fn per_pixel_group() {
    let mut ppu = SASPPU::new();
    ppu.main_state.mainscreen_colour = 0x7C00;
    ppu.sprites[4][0] = [0, 0x001F, 0, 0x001F, 0, 0x001F, 0, 0x001F];
    ppu.oam[3].x = 8;
    ppu.oam[3].flags = SPR_ENABLED | SPR_SUB_SCREEN | (0xF << 12) | SPR_MAIN_SCREEN | (0xF << 8);
    let mut caches: SpriteCaches = [[None; 16]; 2];
    sasppu::scanline::per_scanline(&ppu.oam, 4, &mut caches);
    let variant = ppu.select_correct_per_pixel(&caches);
    assert!(variant.spr0_enable && !variant.spr1_enable && !variant.cmath_enable);
    let bg0 = select_correct_handle_bg(&ppu.bg0_state);
    let bg1 = select_correct_handle_bg(&ppu.bg1_state);
    let out = ppu.per_pixel(variant, 8, 4, &caches, bg0, bg1);
    assert_eq!(out, [0xF800, 0x001F, 0xF800, 0x001F, 0xF800, 0x001F, 0xF800, 0x001F]);
    let out = ppu.per_pixel(variant, 0, 4, &caches, bg0, bg1);
    assert_eq!(out, [0xF800; 8]);
}
