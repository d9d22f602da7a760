//! Core simulation of a grid-based snake game on a toroidal playing field.
//!
//! The library owns the occupancy grid, the snake body, food placement and
//! the session state machine (direction intents, pause, game over). It does
//! no drawing and reads no input devices: a front end feeds it direction,
//! pause and reset events and reads the body, food and flags back out.

pub mod game;
pub mod geom;
pub mod grid;
mod rng;

use vstd::prelude::*;

verus! {

/// Width of the game window in pixels.
pub const WINDOW_WIDTH: usize = 640;

/// Height of the game window in pixels.
pub const WINDOW_HEIGHT: usize = 480;

/// Side length in pixels of one grid cell, as a renderer draws it.
pub const BLOCK_SIZE: usize = 10;

/// Number of rows on the standard playing field.
pub const ROWS: usize = WINDOW_HEIGHT / BLOCK_SIZE;

/// Number of columns on the standard playing field.
pub const COLS: usize = WINDOW_WIDTH / BLOCK_SIZE;

} // verus!
