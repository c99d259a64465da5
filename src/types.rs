//! Scene description: sprites, backgrounds, colour-math and global state,
//! together with the fixed sizes of the planes the compositor reads.
use vstd::prelude::*;

verus! {

pub const SPR_ENABLED: u16 = 1 << 0;
pub const SPR_PRIORITY: u16 = 1 << 1;
pub const SPR_FLIP_X: u16 = 1 << 2;
pub const SPR_FLIP_Y: u16 = 1 << 3;
pub const SPR_MAIN_SCREEN: u16 = 1 << 4;
pub const SPR_SUB_SCREEN: u16 = 1 << 5;
pub const SPR_C_MATH: u16 = 1 << 6;
pub const SPR_DOUBLE: u16 = 1 << 7;
pub const SPR_MAIN_WINDOW_POW2: u16 = 8;
pub const SPR_MAIN_WINDOW_LOG1: u16 = 1 << 8;
pub const SPR_MAIN_WINDOW_LOG2: u16 = 1 << 9;
pub const SPR_MAIN_WINDOW_LOG3: u16 = 1 << 10;
pub const SPR_MAIN_WINDOW_LOG4: u16 = 1 << 11;
pub const SPR_SUB_WINDOW_POW2: u16 = 12;
pub const SPR_SUB_WINDOW_LOG1: u16 = 1 << 12;
pub const SPR_SUB_WINDOW_LOG2: u16 = 1 << 13;
pub const SPR_SUB_WINDOW_LOG3: u16 = 1 << 14;
pub const SPR_SUB_WINDOW_LOG4: u16 = 1 << 15;

pub const WINDOW_A: u16 = 0b0001;
pub const WINDOW_B: u16 = 0b0010;
pub const WINDOW_AB: u16 = 0b0100;
pub const WINDOW_X: u16 = 0b1000;

pub const BG_WIDTH_POWER: usize = 8;
pub const BG_HEIGHT_POWER: usize = 8;
pub const BG_WIDTH: usize = 256;
pub const BG_HEIGHT: usize = 256;

pub const SPRITE_COUNT: usize = 256;
pub const SPRITE_CACHE: usize = 16;

pub const SPR_WIDTH_POWER: usize = 8;
pub const SPR_HEIGHT_POWER: usize = 8;
pub const SPR_WIDTH: usize = 256;
pub const SPR_HEIGHT: usize = 256;

pub const MAP_WIDTH_POWER: usize = 6;
pub const MAP_HEIGHT_POWER: usize = 6;
pub const MAP_WIDTH: usize = 64;
pub const MAP_HEIGHT: usize = 64;

/// Number of eight-lane vectors in one row of the background graphics plane.
pub const BG_ROW_VECTORS: usize = 32;
/// Number of eight-lane vectors in the background graphics plane.
pub const BG_PLANE_VECTORS: usize = 8192;
/// Number of eight-lane vectors in one row of the sprite plane.
pub const SPR_ROW_VECTORS: usize = 32;

/// Side of the square output image, in pixels.
pub const SCREEN_SIZE: usize = 240;

/// Eight horizontally adjacent 16-bit pixels; lane 0 is the leftmost.
pub type Lanes = [u16; 8];
/// One boolean per lane.
pub type Mask = [bool; 8];

/// A background map: `MAP_HEIGHT` rows of `MAP_WIDTH` cells, each cell
/// `(tile_index << 3) | (flip_y << 1) | flip_x`.
pub type BackgroundMap = [[u16; 64]; 64];
/// The graphics plane shared by both backgrounds: `BG_HEIGHT` rows of
/// `BG_ROW_VECTORS` vectors, stored row after row (`BG_PLANE_VECTORS` in all).
pub type GraphicsPlane = Vec<Lanes>;
/// One row of the sprite plane.
pub type SpriteRow = [Lanes; 32];
/// The sprite plane: `SPR_HEIGHT` rows of `SPR_ROW_VECTORS` vectors.
pub type SpritePlane = Vec<SpriteRow>;

#[derive(Debug, Clone, Copy)]
pub struct Sprite {
    pub x: i16,
    pub y: i16,
    pub width: u8,
    pub height: u8,
    pub graphics_x: u8,
    pub graphics_y: u8,
    pub flags: u16,
}

impl Sprite {
    /// An 8x8 sprite at the origin, disabled.
    pub open spec fn initial() -> Self {
        Sprite { x: 0, y: 0, width: 8, height: 8, graphics_x: 0, graphics_y: 0, flags: 0 }
    }

    pub fn new() -> (r: Self)
        ensures
            r == Self::initial(),
    {
        Sprite { x: 0, y: 0, width: 8, height: 8, graphics_x: 0, graphics_y: 0, flags: 0 }
    }

    pub open spec fn flag(self, bit: u16) -> bool {
        self.flags & bit != 0
    }

    /// The 4-bit window function used on the main screen.
    pub open spec fn main_window(self) -> u8 {
        ((self.flags >> 8u16) & 0xF) as u8
    }

    /// The 4-bit window function used on the sub screen.
    pub open spec fn sub_window(self) -> u8 {
        ((self.flags >> 12u16) & 0xF) as u8
    }

    pub open spec fn eff_width(self) -> int {
        if self.flag(SPR_DOUBLE) {
            2 * self.width
        } else {
            self.width as int
        }
    }

    pub open spec fn eff_height(self) -> int {
        if self.flag(SPR_DOUBLE) {
            2 * self.height
        } else {
            self.height as int
        }
    }

    /// The sprite covers screen row `y`.
    pub open spec fn covers_row(self, y: int) -> bool {
        self.y <= y < self.y + self.eff_height()
    }

    /// The sprite takes part in row `y`: enabled, shown on at least one screen
    /// through a window function that is not constantly false, and its box
    /// meets the row and the visible columns.
    pub open spec fn visible_on(self, y: int) -> bool {
        &&& self.flag(SPR_ENABLED)
        &&& ((self.flag(SPR_MAIN_SCREEN) && self.main_window() != 0) || (self.flag(
            SPR_SUB_SCREEN,
        ) && self.sub_window() != 0))
        &&& self.covers_row(y)
        &&& self.x < 240
        &&& self.x > -self.eff_width()
    }

    /// Every texel the sprite can fetch lies inside the sprite plane. A
    /// vertically flipped sprite must be no taller than it is wide, since its
    /// rows are mirrored about its width.
    pub open spec fn fits_plane(self) -> bool {
        &&& self.flag(SPR_FLIP_Y) ==> self.height <= self.width
        &&& self.graphics_y + (if self.flag(SPR_FLIP_Y) {
            self.width
        } else {
            self.height
        }) <= 256
        &&& 8 * self.graphics_x + self.width <= 256
    }
}

impl Default for Sprite {
    fn default() -> (r: Self)
        ensures
            r == Self::initial(),
    {
        Self::new()
    }
}

#[derive(Debug, Clone, Copy)]
pub struct Background {
    pub scroll_x: i16,
    pub scroll_y: i16,
    pub main_window_log: u8,
    pub sub_window_log: u8,
    pub cmath_enable: bool,
    pub main_screen_enable: bool,
    pub sub_screen_enable: bool,
    pub enable: bool,
}

impl Background {
    /// A disabled background, unscrolled, with both window functions 15.
    pub open spec fn initial() -> Self {
        Background {
                    scroll_x: 0,
                    scroll_y: 0,
                    main_window_log: 0xF,
                    sub_window_log: 0xF,
                    cmath_enable: false,
                    main_screen_enable: false,
                    sub_screen_enable: false,
                    enable: false,
                }
    }

    pub fn new() -> (r: Self)
        ensures
            r == Self::initial(),
    {
        Background {
            scroll_x: 0,
            scroll_y: 0,
            main_window_log: 0xF,
            sub_window_log: 0xF,
            cmath_enable: false,
            main_screen_enable: false,
            sub_screen_enable: false,
            enable: false,
        }
    }
}

impl Default for Background {
    fn default() -> (r: Self)
        ensures
            r == Self::initial(),
    {
        Self::new()
    }
}

#[derive(Debug, Clone, Copy)]
pub struct ColorMath {
    pub screen_fade: u8,
    pub half_main_screen: bool,
    pub double_main_screen: bool,
    pub half_sub_screen: bool,
    pub double_sub_screen: bool,
    pub add_sub_screen: bool,
    pub sub_sub_screen: bool,
    pub fade_enable: bool,
    pub cmath_enable: bool,
}

impl ColorMath {
    /// Colour math and fade off.
    pub open spec fn initial() -> Self {
        ColorMath {
                    screen_fade: 0,
                    half_main_screen: false,
                    double_main_screen: false,
                    half_sub_screen: false,
                    double_sub_screen: false,
                    add_sub_screen: false,
                    sub_sub_screen: false,
                    fade_enable: false,
                    cmath_enable: false,
                }
    }

    pub fn new() -> (r: Self)
        ensures
            r == Self::initial(),
    {
        ColorMath {
            screen_fade: 0,
            half_main_screen: false,
            double_main_screen: false,
            half_sub_screen: false,
            double_sub_screen: false,
            add_sub_screen: false,
            sub_sub_screen: false,
            fade_enable: false,
            cmath_enable: false,
        }
    }
}

impl Default for ColorMath {
    fn default() -> (r: Self)
        ensures
            r == Self::initial(),
    {
        Self::new()
    }
}

#[derive(Debug, Clone, Copy)]
pub struct State {
    pub mainscreen_colour: u16,
    pub subscreen_colour: u16,
    pub cmath_default: bool,
    pub window_1_left: u8,
    pub window_1_right: u8,
    pub window_2_left: u8,
    pub window_2_right: u8,
}

impl State {
    /// Black fill colours; both windows span columns 0 to 254.
    pub open spec fn initial() -> Self {
        State {
                    mainscreen_colour: 0,
                    subscreen_colour: 0,
                    cmath_default: false,
                    window_1_left: 0,
                    window_1_right: 255,
                    window_2_left: 0,
                    window_2_right: 255,
                }
    }

    pub fn new() -> (r: Self)
        ensures
            r == Self::initial(),
    {
        State {
            mainscreen_colour: 0,
            subscreen_colour: 0,
            cmath_default: false,
            window_1_left: 0,
            window_1_right: 255,
            window_2_left: 0,
            window_2_right: 255,
        }
    }
}

impl Default for State {
    fn default() -> (r: Self)
        ensures
            r == Self::initial(),
    {
        Self::new()
    }
}

} // verus!
