use vstd::prelude::*;

pub mod audio;
pub mod buttons;
pub mod color;
pub mod keyboard_event;
pub mod menu_bar;
pub mod status_bar;
pub mod text;
pub mod traits;
pub mod window_manager;

verus! {

/// Height of the window while the minute and second inputs are hidden.
pub const WINDOW_HEIGHT: i32 = 140;

/// Width of the window.
pub const WINDOW_WIDTH: i32 = 200;

/// Messages that the countdown and the keyboard send to the main loop, and that
/// the buttons send to a running countdown.
#[derive(Debug, Copy, Clone, PartialEq, Eq, Structural)]
pub enum ChannelMessage {
    /// Show this many seconds; the flag says whether the window may change its
    /// background and sound the alarm on the way.
    UpdateCountdown(u32, bool),
    /// Stop the running countdown.
    StopCountdown,
}

} // verus!
