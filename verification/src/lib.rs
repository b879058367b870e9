//! Conway's Game of Life on a bounded grid without wraparound.
//!
//! `rules` states the rule of the game over plain sequences. `game_logic`
//! plays it on a fixed array, with the position checks of `utils`; `matrix`
//! plays it on a grid whose size is chosen when it is built, addressed by
//! the positions of `point`. `session` says what a tick of the clock does to
//! a game, and `laws` proves what holds of every grid.

use vstd::prelude::*;

pub mod game_logic;
pub mod laws;
pub mod matrix;
pub mod point;
pub mod rules;
mod scan;
pub mod session;
pub mod utils;

verus! {

/// Rows of the fixed grid that `game_logic` works on.
pub const ROWS: usize = 3;

/// Columns of the fixed grid that `game_logic` works on.
pub const COLS: usize = 3;

/// The state of a dead cell.
pub const DEAD: bool = false;

/// The state of a live cell.
pub const ALIVE: bool = true;

} // verus!
