use vstd::prelude::*;

use crate::buttons::start_button::{ButtonLabel, StartButton, consistent};
use crate::color::Color;
use crate::{WINDOW_HEIGHT, WINDOW_WIDTH};

verus! {

/// The button that shows or hides the minute and second inputs.
pub struct SetButton {}

/// Height of the window while the minute and second inputs show.
pub const EXPANDED_WINDOW_HEIGHT: i32 = 260;

/// How the window is laid out: whether the inputs show, and its size.
#[derive(Debug, Copy, Clone, PartialEq, Eq, Structural)]
pub struct WindowLayout {
    pub show_inputs: bool,
    pub width: i32,
    pub height: i32,
}

/// The layout after a press of the set button, from the window's height in
/// pixels: a window taller than 400 pixels hides the inputs and shrinks, any
/// other shows them and grows.
pub open spec fn layout_after_set(pixel_height: int) -> WindowLayout {
    if pixel_height > 400 {
        WindowLayout { show_inputs: false, width: 200, height: 140 }
    } else {
        WindowLayout { show_inputs: true, width: 200, height: 260 }
    }
}

impl SetButton {
    /// A press of the set button: the start button goes back to a blue "Start"
    /// (the running countdown is to be stopped) and the inputs show or hide.
    pub fn on_click(start_button: &mut StartButton, pixel_height: i32) -> (layout: WindowLayout)
        ensures
            final(start_button).label == ButtonLabel::Start,
            final(start_button).color == Color::Blue,
            final(start_button).state == old(start_button).state,
            consistent(*final(start_button)),
            layout == layout_after_set(pixel_height as int),
    {
        start_button.label = ButtonLabel::Start;
        start_button.color = Color::Blue;

        if pixel_height > 400 {
            WindowLayout { show_inputs: false, width: 200, height: WINDOW_HEIGHT }
        } else {
            WindowLayout { show_inputs: true, width: 200, height: EXPANDED_WINDOW_HEIGHT }
        }
    }
}

/// A window at most 400 pixels tall shows the inputs and grows to 200 x 260; a
/// taller one hides them and shrinks to 200 x `WINDOW_HEIGHT`.
pub proof fn lemma_set_layout_rule(pixel_height: int)
    ensures
        pixel_height <= 400 ==> layout_after_set(pixel_height) == (WindowLayout {
            show_inputs: true,
            width: WINDOW_WIDTH,
            height: 260,
        }),
        pixel_height > 400 ==> layout_after_set(pixel_height) == (WindowLayout {
            show_inputs: false,
            width: WINDOW_WIDTH,
            height: WINDOW_HEIGHT,
        }),
{
}

} // verus!
