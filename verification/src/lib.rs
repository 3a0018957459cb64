//! Pixel-board logic for a 64 x 48 monochrome screen: the screen model and
//! its write operations, and the board logic of the demo programs that draw
//! on it (Conway's game of life, a tetris playfield, a block world renderer
//! and the column drawing of a raycaster).
use vstd::prelude::*;

pub mod graphics;
pub mod doom3d;
pub mod life;
pub mod tetris;
pub mod tetris_game;
pub mod terraria;
pub mod raycaster;
pub mod pong;

verus! {

/// Number of pixels in horizontal direction
pub const WIDTH: usize = 64;

/// Number of pixels in vertical direction
pub const HEIGHT: usize = 48;

/// Width in number of 32 bit words that can fit horizontally
pub const WORDS: usize = WIDTH / 32;

} // verus!
