//! A CHIP-8 interpreter core: the machine state, the instruction decoder and
//! the fetch/decode/execute step, together with the small pieces of logic that
//! a front end needs (keyboard mapping, pause/quit handling, pixel layout).
use vstd::prelude::*;

pub mod behaviour;
pub mod config;
pub mod input;
pub mod instruction;
pub mod laws;
pub mod machine;
pub mod model;
pub mod render;
pub mod sprite;

pub use config::Config;
pub use input::{
    frame_action, handle_event, map_key, EventOutcome, FrameAction, InputEvent, Key, State,
};
pub use instruction::{decode, Inst, Instruction};
pub use machine::{Chip8, StepFault};
pub use render::{lit_pixel_rects, rgba_components, PixelRect};

verus! {

/// Width of the CHIP-8 screen in pixels.
pub const SCREEN_WIDTH: usize = 64;

/// Height of the CHIP-8 screen in pixels.
pub const SCREEN_HEIGHT: usize = 32;

/// Size of one screen pixel in window pixels.
pub const SCALE: u32 = 15;

/// Width of the host window.
pub const WINDOW_WIDTH: u32 = 64 * SCALE;

/// Height of the host window.
pub const WINDOW_HEIGHT: u32 = 32 * SCALE;

/// Address where programs are loaded and execution starts.
pub const START_ADDR: u16 = 0x200;

/// Largest program that fits in memory after the start address.
pub const MAX_ROM_SIZE: usize = 3584;

} // verus!
