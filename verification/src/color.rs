use vstd::prelude::*;

verus! {

/// The colours that the timer paints its window and buttons with.
#[derive(Debug, Copy, Clone, PartialEq, Eq, Structural)]
pub enum Color {
    Black,
    White,
    Blue,
    DarkBlue,
    Red,
    Green,
}

} // verus!
