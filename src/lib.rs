//! A scanline compositor for a sprite-and-tilemap picture processing unit:
//! two scrollable tile backgrounds, 256 sprites, two windows and colour math,
//! rendered into a 240x240 frame eight pixels at a time.
pub mod background;
pub mod cmath;
pub mod lanes;
pub mod laws;
pub mod ppu;
pub mod scanline;
pub mod sprite;
pub mod types;
pub mod window;
