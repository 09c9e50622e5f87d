//! A verified CHIP-8 virtual machine: an instruction decoder and a CPU engine
//! with registers, memory, stack, timers, a monochrome framebuffer and a
//! 16-key keypad, driven by a host loop that supplies elapsed time.

pub mod emulator;
pub mod laws;
pub mod instruction;

use vstd::prelude::*;

verus! {

/// Width of the monochrome screen in pixels.
pub const SCREEN_WIDTH: u32 = 64;

/// Height of the monochrome screen in pixels.
pub const SCREEN_HEIGHT: u32 = 32;

} // verus!
