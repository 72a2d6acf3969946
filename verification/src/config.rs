//! Presentation settings for a front end.
use vstd::prelude::*;

use crate::{SCALE, SCREEN_HEIGHT, SCREEN_WIDTH, WINDOW_HEIGHT, WINDOW_WIDTH};

verus! {

/// Colours (RGBA, red in the top byte) and sizes used to show the screen.
pub struct Config {
    pub bg_color: u32,
    pub fg_color: u32,
    pub screen_width: usize,
    pub screen_height: usize,
    pub window_height: u32,
    pub window_width: u32,
    pub scale: u32,
}

impl Config {
    /// Black background, white foreground, a 64x32 screen scaled 15 times
    /// into a 960x480 window.
    pub fn new() -> (config: Config)
        ensures
            config.bg_color == 0x000000FF,
            config.fg_color == 0xFFFFFFFF,
            config.screen_width == 64,
            config.screen_height == 32,
            config.window_width == 960,
            config.window_height == 480,
            config.scale == 15,
    {
        Config {
            bg_color: 0x000000FF,
            fg_color: 0xFFFFFFFF,
            screen_width: SCREEN_WIDTH,
            screen_height: SCREEN_HEIGHT,
            window_width: WINDOW_WIDTH,
            window_height: WINDOW_HEIGHT,
            scale: SCALE,
        }
    }
}

} // verus!
