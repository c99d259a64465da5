use sasppu::background::{fetch_tile_row, handle_bg, select_correct_handle_bg};
use sasppu::cmath::handle_cmath;
use sasppu::ppu::SASPPU;
use sasppu::scanline::{per_scanline, SpriteCaches};
use sasppu::types::{
    Background, ColorMath, Lanes, Sprite, SPR_C_MATH, SPR_ENABLED, SPR_FLIP_X, SPR_MAIN_SCREEN,
    SPR_PRIORITY, SPR_SUB_SCREEN,
};
use sasppu::window::get_window;

fn render(ppu: &SASPPU) -> Vec<[u16; 240]> {
    let mut caches: SpriteCaches = [[None; 16]; 2];
    let mut screen = [[0u16; 240]; 240];
    ppu.render(&mut caches, &mut screen);
    screen.to_vec()
}

fn busy_scene() -> SASPPU {
    let mut ppu = SASPPU::new();
    ppu.main_state.mainscreen_colour = 0x1234;
    for t in 0..64usize {
        for row in 0..8 {
            let mut v = [0u16; 8];
            for (l, lane) in v.iter_mut().enumerate() {
                *lane = ((t * 37 + row * 11 + l * 5) % 0x7FFF) as u16;
            }
            ppu.background[t + row * 32] = v;
        }
    }
    for r in 0..64 {
        for c in 0..64 {
            ppu.bg0[r][c] = (((r * 7 + c * 3) % 64) as u16) << 3 | ((r + c) % 4) as u16;
        }
    }
    ppu.bg0_state.enable = true;
    ppu.bg0_state.main_screen_enable = true;
    ppu.bg0_state.scroll_x = 13;
    ppu.bg0_state.scroll_y = -5;
    ppu
}

#[test]
fn render_is_deterministic() {
    let ppu = busy_scene();
    let a = render(&ppu);
    let b = render(&ppu);
    assert_eq!(a, b);
    // stale scratch contents do not matter
    let mut caches: SpriteCaches = [[Some(Sprite::new()); 16]; 2];
    let mut screen = [[0xFFFFu16; 240]; 240];
    ppu.render(&mut caches, &mut screen);
    assert_eq!(screen.to_vec(), a);
}

#[test]
fn transparent_pixels_keep_accumulator() {
    let mut ppu = SASPPU::new();
    ppu.main_state.mainscreen_colour = 0x0123;
    ppu.bg0_state.enable = true;
    ppu.bg0_state.main_screen_enable = true;
    ppu.background[2] = [0, 0x7C00, 0, 0x7C00, 0, 0x7C00, 0, 0x7C00];
    let screen = render(&ppu);
    assert_eq!(&screen[0][0..4], &[0x0243, 0xF800, 0x0243, 0xF800]);
}

#[test]
fn transparent_texel_with_cmath_keeps_accumulator() {
    let mut main: Lanes = [5; 8];
    let mut sub: Lanes = [6; 8];
    let mut state = Background::new();
    state.cmath_enable = true;
    state.main_screen_enable = true;
    state.sub_screen_enable = true;
    let map = [[16u16; 64]; 64];
    let mut graphics = vec![[0u16; 8]; 8192];
    graphics[2] = [0, 0x8000, 0x0001, 0, 0, 0, 0, 0x7C00];
    let v = select_correct_handle_bg(&state);
    handle_bg(&state, v, &map, &graphics, &mut main, &mut sub, 0, 0, [true; 8], [true; 8]);
    assert_eq!(main, [5, 5, 0x8001, 5, 5, 5, 5, 0xFC00]);
    assert_eq!(sub, [6, 6, 0x8001, 6, 6, 6, 6, 0xFC00]);

    // through the whole frame: a colour-math background over a red fill
    let mut ppu = SASPPU::new();
    ppu.main_state.mainscreen_colour = 0x7C00;
    ppu.bg0_state.enable = true;
    ppu.bg0_state.cmath_enable = true;
    ppu.bg0_state.main_screen_enable = true;
    let screen = render(&ppu);
    assert_eq!(screen[0][0], 0xF800);
    assert_eq!(screen[239][239], 0xF800);
}

#[test]
fn transparent_sprite_texel_with_cmath_keeps_accumulator() {
    let mut ppu = SASPPU::new();
    ppu.main_state.mainscreen_colour = 0x7C00;
    ppu.sprites[0][0] = [0, 0x8000, 0, 0x001F, 0, 0, 0, 0];
    ppu.oam[0].flags = SPR_ENABLED | SPR_MAIN_SCREEN | SPR_C_MATH | (0xF << 8);
    let screen = render(&ppu);
    assert_eq!(&screen[0][0..4], &[0xF800, 0xF800, 0xF800, 0x001F]);
    ppu.oam[0].flags |= sasppu::types::SPR_DOUBLE;
    let screen = render(&ppu);
    assert_eq!(&screen[0][0..8], &[0xF800, 0xF800, 0xF800, 0xF800, 0xF800, 0xF800, 0x001F, 0x001F]);
}

#[test]
fn window_totality() {
    let map = [[8u16; 64]; 64];
    let mut graphics = vec![[0u16; 8]; 8192];
    graphics[1] = [0, 1, 2, 3, 4, 5, 6, 7];
    let mut state = Background::new();
    state.main_screen_enable = true;
    state.sub_screen_enable = true;
    let w1 = [true, false, true, false, true, false, true, false];
    let w2 = [true, true, false, false, true, true, false, false];
    let (mut main, mut sub): (Lanes, Lanes) = ([9; 8], [10; 8]);
    let v = select_correct_handle_bg(&state);
    handle_bg(&state, v, &map, &graphics, &mut main, &mut sub, 0, 0, w1, w2);
    assert_eq!(main, [9, 1, 2, 3, 4, 5, 6, 7]);
    assert_eq!(sub, [10, 1, 2, 3, 4, 5, 6, 7]);
    state.main_window_log = 0;
    state.sub_window_log = 0;
    let (mut main, mut sub): (Lanes, Lanes) = ([9; 8], [10; 8]);
    let v = select_correct_handle_bg(&state);
    handle_bg(&state, v, &map, &graphics, &mut main, &mut sub, 0, 0, w1, w2);
    assert_eq!(main, [9; 8]);
    assert_eq!(sub, [10; 8]);
    // a mixed function: inside both windows only
    state.main_window_log = 4;
    let (mut main, mut sub): (Lanes, Lanes) = ([9; 8], [10; 8]);
    let v = select_correct_handle_bg(&state);
    handle_bg(&state, v, &map, &graphics, &mut main, &mut sub, 0, 0, w1, w2);
    assert_eq!(main, [9, 9, 9, 9, 4, 9, 9, 9]);
}

fn two_sprite_scene() -> SASPPU {
    let mut ppu = SASPPU::new();
    ppu.sprites[0][0] = [0x03E0; 8];
    ppu.sprites[0][1] = [0x7C00; 8];
    let base = SPR_ENABLED | SPR_MAIN_SCREEN | (0xF << 8);
    ppu.oam[0].flags = base | SPR_PRIORITY;
    ppu.oam[0].graphics_x = 1;
    ppu.oam[1].flags = base;
    ppu
}

#[test]
fn priority_one_sprite_on_top() {
    let ppu = two_sprite_scene();
    let screen = render(&ppu);
    assert_eq!(screen[0][0], 0xF800);
    assert_eq!(screen[0][7], 0xF800);
    assert_eq!(screen[0][8], 0);
}

#[test]
fn layer_ordering() {
    let mut ppu = two_sprite_scene();
    ppu.oam[0].flags &= !SPR_PRIORITY;
    // both priority 0: the later one in storage order is drawn last
    let screen = render(&ppu);
    assert_eq!(screen[0][0], 0x07C0);
    // BG1 covers priority-0 sprites
    ppu.background[2] = [0x001F; 8];
    ppu.bg1_state.enable = true;
    ppu.bg1_state.main_screen_enable = true;
    let screen = render(&ppu);
    assert_eq!(screen[0][0], 0x001F);
    // BG0 is under everything
    ppu.bg1_state.enable = false;
    ppu.bg0_state.enable = true;
    ppu.bg0_state.main_screen_enable = true;
    let screen = render(&ppu);
    assert_eq!(screen[0][0], 0x07C0);
    assert_eq!(screen[0][8], 0x001F);
}

#[test]
fn scroll_wraps_with_plane() {
    let mut ppu = busy_scene();
    for r in 0..64 {
        for c in 0..64 {
            ppu.bg0[r][c] = ppu.bg0[r % 32][c % 32];
        }
    }
    let before = render(&ppu);
    ppu.bg0_state.scroll_x += 256;
    ppu.bg0_state.scroll_y -= 256;
    assert_eq!(render(&ppu), before);
    ppu.bg0_state.scroll_x = ppu.bg0_state.scroll_x.wrapping_add(-32768);
    assert_eq!(render(&ppu), before);
    ppu.bg0_state.scroll_x += 1;
    assert_ne!(render(&ppu), before);
}

#[test]
fn flips_are_involutions() {
    let mut graphics = vec![[0u16; 8]; 8192];
    for row in 0..8u16 {
        graphics[5 + row as usize * 32] = [row, 10 + row, 20, 30, 40, 50, 60, 70 + row];
    }
    let cell: u16 = 5 << 3;
    let plain = fetch_tile_row(cell, 2, &graphics);
    assert_eq!(plain, [2, 12, 20, 30, 40, 50, 60, 72]);
    assert_eq!(fetch_tile_row(cell ^ 1, 2, &graphics), [72, 60, 50, 40, 30, 20, 12, 2]);
    assert_eq!(fetch_tile_row(cell ^ 1 ^ 1, 2, &graphics), plain);
    assert_eq!(fetch_tile_row(cell ^ 2, 2, &graphics), [5, 15, 20, 30, 40, 50, 60, 75]);
    assert_eq!(fetch_tile_row(cell ^ 2 ^ 2, 2, &graphics), plain);

    let mut ppu = SASPPU::new();
    for l in 0..8u16 {
        ppu.sprites[0][0][l as usize] = l + 1;
    }
    ppu.oam[0].x = 3;
    ppu.oam[0].flags = SPR_ENABLED | SPR_MAIN_SCREEN | (0xF << 8);
    let plain = render(&ppu);
    assert_eq!(&plain[0][0..11], &[0, 0, 0, 1, 2, 3, 4, 5, 6, 7, 8]);
    ppu.oam[0].flags ^= SPR_FLIP_X;
    let flipped = render(&ppu);
    assert_eq!(&flipped[0][0..11], &[0, 0, 0, 8, 7, 6, 5, 4, 3, 2, 1]);
    ppu.oam[0].flags ^= SPR_FLIP_X;
    assert_eq!(render(&ppu), plain);
}

#[test]
fn cache_cap_per_priority() {
    let mut ppu = SASPPU::new();
    for i in 0..40usize {
        ppu.oam[i].y = 2;
        ppu.oam[i].x = i as i16;
        let prio = if i % 2 == 0 { 0 } else { SPR_PRIORITY };
        ppu.oam[i].flags = SPR_ENABLED | SPR_SUB_SCREEN | (0x1 << 12) | prio;
    }
    let mut caches: SpriteCaches = [[None; 16]; 2];
    per_scanline(&ppu.oam, 2, &mut caches);
    for p in 0..2 {
        for j in 0..16 {
            assert_eq!(caches[p][j].unwrap().x, (2 * j + p) as i16);
        }
    }
    per_scanline(&ppu.oam, 1, &mut caches);
    assert!(caches[0][0].is_none());
    assert!(caches[1][0].is_none());
}

#[test]
fn selection_visibility_rules() {
    let mut oam = [Sprite::new(); 256];
    let on = SPR_ENABLED | SPR_MAIN_SCREEN | (0xF << 8);
    oam[0].flags = on; // visible at row 0
    oam[1].flags = SPR_MAIN_SCREEN | (0xF << 8); // disabled
    oam[2].flags = SPR_ENABLED | SPR_MAIN_SCREEN; // main window function 0
    oam[3].flags = SPR_ENABLED | (0xF << 8); // on no screen
    oam[4].flags = on;
    oam[4].x = 240; // right of the screen
    oam[5].flags = on;
    oam[5].x = -8; // left of the screen
    oam[6].flags = on;
    oam[6].x = -7;
    oam[7].flags = on | sasppu::types::SPR_DOUBLE;
    oam[7].x = -15;
    oam[7].y = -15;
    oam[8].flags = on;
    oam[8].y = 1; // below row 0
    let mut caches: SpriteCaches = [[None; 16]; 2];
    per_scanline(&oam, 0, &mut caches);
    let xs: Vec<i16> = caches[0].iter().take_while(|c| c.is_some()).map(|c| c.unwrap().x).collect();
    assert_eq!(xs, vec![0, -7, -15]);
    assert!(caches[1][0].is_none());
}

#[test]
fn cmath_disabled_is_repack() {
    let cm = ColorMath::new();
    let mut main: Lanes = [0x7C00, 0x03E0, 0x001F, 0xFFFF, 0x8421, 0x1234, 0x0000, 0x7FFF];
    let sub: Lanes = [0x7FFF; 8];
    handle_cmath(&cm, &mut main, &sub);
    assert_eq!(main, [0xF800, 0x07C0, 0x001F, 0xFFDF, 0x0841, 0x2454, 0x0000, 0xFFDF]);
}

#[test]
fn fade_is_monotone() {
    let mut cm = ColorMath::new();
    cm.fade_enable = true;
    let start: Lanes = [0x7FFF, 0x7C00, 0x03E0, 0x001F, 0x4210, 0x1234, 0x0001, 0x7BDE];
    let sub: Lanes = [0; 8];
    let mut last = [0u16; 8];
    for f in 0..=255u8 {
        cm.screen_fade = f;
        let mut main = start;
        handle_cmath(&cm, &mut main, &sub);
        for l in 0..8 {
            assert!(main[l] >> 11 >= last[l] >> 11);
            assert!((main[l] >> 5) & 63 >= (last[l] >> 5) & 63);
            assert!(main[l] & 31 >= last[l] & 31);
        }
        last = main;
    }
    cm.screen_fade = 128;
    let mut main = start;
    handle_cmath(&cm, &mut main, &sub);
    assert_eq!(main[0], 0x7BCF);
    cm.screen_fade = 0;
    let mut main = start;
    handle_cmath(&cm, &mut main, &sub);
    assert_eq!(main, [0; 8]);
}

#[test]
fn window_function_identity() {
    let w1 = [true, false, true, false, true, false, true, false];
    let w2 = [true, true, false, false, true, true, false, false];
    assert_eq!(get_window(15, w1, w2), [true; 8]);
    assert_eq!(get_window(0, w1, w2), [false; 8]);
    assert_eq!(get_window(1, w1, w2), [false, false, true, false, false, false, true, false]);
    assert_eq!(get_window(2, w1, w2), [false, true, false, false, false, true, false, false]);
    assert_eq!(get_window(8, w1, w2), [false, false, false, true, false, false, false, true]);
}

#[test]
fn sprite_cmath_flag() {
    let mut ppu = SASPPU::new();
    ppu.sprites[0][0] = [0x7FFF; 8];
    ppu.oam[0].flags = SPR_ENABLED | SPR_MAIN_SCREEN | SPR_C_MATH | (0xF << 8);
    ppu.main_state.subscreen_colour = 0x0421;
    ppu.cmath_state.cmath_enable = true;
    ppu.cmath_state.sub_sub_screen = true;
    let screen = render(&ppu);
    assert_eq!(screen[0][0], (30 << 11) | (30 << 6) | 30);
    assert_eq!(screen[0][8], 0x0000);
}
