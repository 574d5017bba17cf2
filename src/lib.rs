//! A CHIP-8 virtual machine whose instruction semantics are proved against
//! a mathematical model of the machine state.

pub mod instruction;
pub mod model;
pub mod emulator;
pub mod laws;
pub mod roms;

use vstd::prelude::*;

verus! {

/// Width of the display in pixels.
pub const DISPLAY_WIDTH: usize = 64;

/// Height of the display in pixels.
pub const DISPLAY_HEIGHT: usize = 32;

/// Number of cells of the display buffer.
pub const DISPLAY_SIZE: usize = 2048;

} // verus!
