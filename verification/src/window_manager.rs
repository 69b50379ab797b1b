use vstd::prelude::*;

use crate::color::Color;
use crate::traits::convert_countdown::{ConvertCountdown, countdown_label};

verus! {

/// The main window, as far as the timer decides about it: its background colour.
pub struct WindowManager {
    pub background: Color,
}

/// What the window shows for a countdown, and whether the alarm is to sound.
pub struct CountdownDisplay {
    pub label: String,
    pub play_alarm: bool,
}

/// The background after showing `countdown`: dark blue at one minute left, red
/// for the last ten seconds, unchanged otherwise or when the background is not
/// to be updated.
pub open spec fn background_after(background: Color, countdown: nat, update_background: bool) -> Color {
    if !update_background {
        background
    } else if countdown == 60 {
        Color::DarkBlue
    } else if countdown <= 10 && countdown > 0 {
        Color::Red
    } else {
        background
    }
}

impl WindowManager {
    /// A window whose background is `background`.
    pub fn new(background: Color) -> (w: WindowManager)
        ensures
            w.background == background,
    {
        WindowManager { background }
    }

    pub fn set_color(&mut self, color: Color)
        ensures
            final(self).background == color,
    {
        self.background = color;
    }

    /// Shows `countdown` as `mm:ss`; when `update_background` holds, turns the
    /// background dark blue at one minute, red in the last ten seconds, and asks
    /// for the alarm at zero.
    pub fn update_countdown(&mut self, countdown: u32, update_background: bool) -> (d:
        CountdownDisplay)
        ensures
            d.label@ == countdown_label(countdown as nat),
            d.play_alarm == (update_background && countdown == 0),
            final(self).background == background_after(
                old(self).background,
                countdown as nat,
                update_background,
            ),
    {
        let (minutes, seconds) = self.to_minutes_seconds(countdown);

        let mut label = minutes;
        proof {
            reveal_strlit(":");
        }
        label.append(":");
        label.append(seconds.as_str());

        if update_background == false {
            return CountdownDisplay { label, play_alarm: false };
        }
        let mut play_alarm = false;
        if countdown == 60 {
            self.set_color(Color::DarkBlue);
        } else if countdown <= 10 && countdown > 0 {
            self.set_color(Color::Red);
        } else if countdown == 0 {
            play_alarm = true;
        }
        CountdownDisplay { label, play_alarm }
    }
}

impl ConvertCountdown for WindowManager {}

/// The background changes only while updating is on, and then only to dark blue at
/// exactly sixty seconds left and to red at one to ten seconds left.
pub proof fn lemma_background_changes(background: Color, countdown: nat, update_background: bool)
    ensures
        !update_background ==> background_after(background, countdown, update_background)
            == background,
        update_background && countdown == 60 ==> background_after(
            background,
            countdown,
            update_background,
        ) == Color::DarkBlue,
        update_background && 1 <= countdown <= 10 ==> background_after(
            background,
            countdown,
            update_background,
        ) == Color::Red,
        (countdown == 0 || (countdown > 10 && countdown != 60)) ==> background_after(
            background,
            countdown,
            update_background,
        ) == background,
{
}

} // verus!
