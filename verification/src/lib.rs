//! Simulation and rendering core of a fixed-frame-rate terminal shooter:
//! a player at the bottom of the playfield defends against a descending
//! swarm of invaders.
//!
//! Every function here computes on plain values: the library says what
//! to paint and which sounds to play, and leaves the terminal, the
//! keyboard, the sound and the threads to the program that drives it.
//! Time is what the caller says has passed; the countdowns are kept by
//! `rusty_time`.

use vstd::prelude::*;

pub mod frame;
pub mod timer;
pub mod shot;
pub mod invaders;
pub mod player;
pub mod render;
pub mod game;

verus! {

/// Number of rows of the playfield.
pub const NUM_ROWS: usize = 20;

/// Number of columns of the playfield.
pub const NUM_COLS: usize = 40;

} // verus!
