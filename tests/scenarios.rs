use sasppu::ppu::SASPPU;
use sasppu::scanline::SpriteCaches;
use sasppu::types::{SPR_ENABLED, SPR_MAIN_SCREEN};

fn render(ppu: &SASPPU) -> Vec<[u16; 240]> {
    let mut caches: SpriteCaches = [[None; 16]; 2];
    let mut screen = [[0u16; 240]; 240];
    ppu.render(&mut caches, &mut screen);
    screen.to_vec()
}

fn fill_tile(ppu: &mut SASPPU, tile: usize, colour: u16) {
    for row in 0..8 {
        ppu.background[tile + row * 32] = [colour; 8];
    }
}

#[test]
fn solid_fill() {
    let mut ppu = SASPPU::new();
    ppu.main_state.mainscreen_colour = 0x7C00;
    let screen = render(&ppu);
    for row in screen.iter() {
        for px in row.iter() {
            assert_eq!(*px, 0xF800);
        }
    }
}

#[test]
fn single_tile() {
    let mut ppu = SASPPU::new();
    ppu.bg0_state.enable = true;
    ppu.bg0_state.main_window_log = 15;
    ppu.bg0_state.main_screen_enable = true;
    ppu.bg0[0][0] = 8;
    ppu.bg0[1][0] = 8;
    for row in 0..8 {
        ppu.background[1 + row * 32] = [1, 2, 3, 4, 5, 6, 7, 8];
    }
    let screen = render(&ppu);
    for y in 0..16 {
        assert_eq!(&screen[y][0..8], &[1, 2, 3, 4, 5, 6, 7, 8]);
    }
    assert_eq!(screen[0][8], 0);
}

#[test]
fn sprite_over_bg0_under_bg1() {
    let mut ppu = SASPPU::new();
    ppu.main_state.mainscreen_colour = 0;
    fill_tile(&mut ppu, 1, 0x001F);
    fill_tile(&mut ppu, 3, 0x7C00);
    ppu.bg0_state.enable = true;
    ppu.bg0_state.main_screen_enable = true;
    ppu.bg0[0][0] = 1 << 3;
    ppu.bg1_state.enable = true;
    ppu.bg1_state.main_screen_enable = true;
    ppu.bg1[0][0] = 3 << 3;
    ppu.sprites[0][0] = [0x03E0; 8];
    ppu.oam[0].flags = SPR_ENABLED | SPR_MAIN_SCREEN | (0xF << 8);
    let screen = render(&ppu);
    assert_eq!(screen[0][0], 0xF800);

    // without BG1 the sprite shows over BG0
    ppu.bg1_state.enable = false;
    let screen = render(&ppu);
    assert_eq!(screen[0][0], 0x07C0);
    // past the sprite, BG0's blue
    ppu.oam[0].x = -4;
    let screen = render(&ppu);
    assert_eq!(screen[0][3], 0x07C0);
    assert_eq!(screen[0][4], 0x001F);
}

#[test]
fn cmath_subtract() {
    let mut ppu = SASPPU::new();
    ppu.main_state.mainscreen_colour = 0x7FFF;
    ppu.main_state.cmath_default = true;
    ppu.main_state.subscreen_colour = 0x0421;
    ppu.cmath_state.cmath_enable = true;
    ppu.cmath_state.sub_sub_screen = true;
    // red, green and blue 30 each, packed as (30 << 11) | (30 << 6) | 30
    let expected: u16 = (30 << 11) | (30 << 6) | 30;
    let screen = render(&ppu);
    assert_eq!(screen[0][0], expected);
    assert_eq!(screen[239][239], expected);
}

#[test]
fn window_cutout() {
    let mut ppu = SASPPU::new();
    ppu.main_state.mainscreen_colour = 0x0001;
    ppu.main_state.window_1_left = 10;
    ppu.main_state.window_1_right = 20;
    ppu.main_state.window_2_left = 0;
    ppu.main_state.window_2_right = 0;
    fill_tile(&mut ppu, 2, 0x7C00);
    ppu.bg0_state.enable = true;
    ppu.bg0_state.main_screen_enable = true;
    ppu.bg0_state.main_window_log = 1;
    let screen = render(&ppu);
    for y in [0usize, 100, 239] {
        for x in 0..240 {
            let expected = if (10..20).contains(&x) { 0xF800 } else { 0x0001 };
            assert_eq!(screen[y][x], expected, "at ({}, {})", x, y);
        }
    }
}

#[test]
fn sprite_cache_saturation() {
    let mut ppu = SASPPU::new();
    for i in 0..20usize {
        let s = &mut ppu.oam[i];
        s.x = (i * 8) as i16;
        s.y = 0;
        s.graphics_x = i as u8;
        s.flags = SPR_ENABLED | SPR_MAIN_SCREEN | (0xF << 8);
        ppu.sprites[5][i] = [(i as u16) + 1; 8];
    }
    let screen = render(&ppu);
    for i in 0..20usize {
        let expected = if i < 16 { (i as u16) + 1 } else { 0 };
        assert_eq!(screen[5][i * 8], expected, "sprite {}", i);
        assert_eq!(screen[5][i * 8 + 7], expected, "sprite {}", i);
    }
}
