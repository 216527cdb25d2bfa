//! Core logic of a tiny animated desktop sprite: a timer-driven animation
//! state machine that decides which cell of a sprite sheet to show, and a
//! compositor that cuts that cell out of the sheet into a clean RGBA buffer.
//!
//! Window creation, input handling and actual drawing are platform glue and
//! live outside this library; they feed it monotonic timestamps and take back
//! frame coordinates and pixel buffers.

use vstd::prelude::*;

pub mod animation;
pub mod compositor;
mod rng;

verus! {

/// Width in pixels of one sprite-sheet cell.
pub const FRAME_W: u32 = 124;

/// Height in pixels of one sprite-sheet cell.
pub const FRAME_H: u32 = 93;

} // verus!
