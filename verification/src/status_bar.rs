use vstd::prelude::*;

use crate::traits::convert_countdown::{ConvertCountdown, countdown_label};

verus! {

/// The item in the system status bar: the title it shows.
pub struct StatusBar {
    pub title: String,
}

/// The status bar title for a countdown: `mm:ss`, or nothing once it reached zero.
pub open spec fn status_title(countdown: nat) -> Seq<char> {
    if countdown == 0 {
        Seq::<char>::empty()
    } else {
        countdown_label(countdown)
    }
}

impl StatusBar {
    /// Shows `countdown` as `mm:ss`, and an empty title once it reached zero.
    pub fn update_countdown(&mut self, countdown: u32)
        ensures
            final(self).title@ == status_title(countdown as nat),
    {
        let (minutes, seconds) = self.to_minutes_seconds(countdown);

        let mut label = minutes;
        proof {
            reveal_strlit(":");
        }
        label.append(":");
        label.append(seconds.as_str());

        if countdown == 0 {
            label = String::new();
        }

        self.title = label;
    }

    /// A status bar item with an empty title.
    pub fn new() -> (s: StatusBar)
        ensures
            s.title@ == Seq::<char>::empty(),
    {
        StatusBar { title: String::new() }
    }
}

impl ConvertCountdown for StatusBar {}

/// The status bar title is empty exactly when the countdown reached zero, and is
/// the window's `mm:ss` label otherwise.
pub proof fn lemma_title_empty_only_at_zero(countdown: nat)
    ensures
        (status_title(countdown).len() == 0) == (countdown == 0),
        countdown > 0 ==> status_title(countdown) == countdown_label(countdown),
{
    if countdown > 0 {
        crate::traits::convert_countdown::lemma_label_reads_back(countdown);
    }
}

} // verus!
