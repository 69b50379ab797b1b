use vstd::prelude::*;

use crate::color::Color;
use crate::text::{i32_from_text, parse_i32};

verus! {

/// The countdown, in seconds, that the timer shows before it first runs.
pub const INITIAL_COUNTDOWN: u32 = 300;

/// What the next press of the start button does.
#[derive(Debug, Copy, Clone, PartialEq, Eq, Structural)]
pub enum State {
    /// Start a countdown from the minute and second inputs.
    Start,
    /// Pause the running countdown.
    Pause,
    /// Resume with this many seconds left.
    Resume(u32),
}

/// The text on the start button.
#[derive(Debug, Copy, Clone, PartialEq, Eq, Structural)]
pub enum ButtonLabel {
    Start,
    Pause,
    Resume,
}

/// What a press of the start button asks the window to do.
#[derive(Debug, Copy, Clone, PartialEq, Eq, Structural)]
pub enum ClickOutcome {
    /// Stop the running countdown.
    Paused,
    /// Hide the inputs, shrink the window, paint it black, drop pending stop
    /// messages and run a countdown of this many seconds.
    Started { duration_secs: u64 },
}

/// What a step of the running countdown does.
#[derive(Debug, Copy, Clone, PartialEq, Eq, Structural)]
pub enum Tick {
    /// A stop message came: the countdown ends without showing anything.
    Stopped,
    /// Show `remaining` seconds; the countdown ends after this when `finished`.
    Show { remaining: u32, finished: bool },
}

/// The start button: its label, its colour, and what its next press does.
#[derive(Debug, Copy, Clone, PartialEq, Eq, Structural)]
pub struct StartButton {
    pub label: ButtonLabel,
    pub color: Color,
    pub state: State,
}

pub open spec fn label_text(label: ButtonLabel) -> Seq<char> {
    match label {
        ButtonLabel::Start => "Start"@,
        ButtonLabel::Pause => "Pause"@,
        ButtonLabel::Resume => "Resume"@,
    }
}

/// The label and the state agree: a button labelled "Pause" pauses and is green,
/// one labelled "Resume" resumes and is blue; one labelled "Start" starts, whatever
/// its state.
pub open spec fn consistent(b: StartButton) -> bool {
    ||| b.label == ButtonLabel::Start
    ||| b.label == ButtonLabel::Pause && b.state == State::Pause && b.color == Color::Green
    ||| b.label == ButtonLabel::Resume && b.state is Resume && b.color == Color::Blue
}

/// The minutes and seconds of the inputs, in seconds, as a `u64` the way `as`
/// converts an `i32`: a negative sum wraps round.
pub open spec fn input_duration(minutes_text: Seq<char>, seconds_text: Seq<char>) -> int {
    let total = i32_from_text(minutes_text)->0 * 60 + i32_from_text(seconds_text)->0;
    if total >= 0 {
        total
    } else {
        total + 0x1_0000_0000_0000_0000
    }
}

/// The inputs parse as numbers and their sum in seconds fits an `i32`.
pub open spec fn inputs_readable(minutes_text: Seq<char>, seconds_text: Seq<char>) -> bool {
    &&& i32_from_text(minutes_text) is Some
    &&& i32_from_text(seconds_text) is Some
    &&& i32::MIN <= i32_from_text(minutes_text)->0 * 60 <= i32::MAX
    &&& i32::MIN <= i32_from_text(minutes_text)->0 * 60 + i32_from_text(seconds_text)->0
        <= i32::MAX
}

/// A press of the start button, given the duration in the inputs and the seconds
/// that the countdown shows: a button labelled "Start" starts from the inputs; a
/// running one pauses and keeps the seconds shown; a paused one resumes from the
/// seconds it kept.
pub open spec fn click_result(b: StartButton, duration: u64, countdown: u32) -> (StartButton, ClickOutcome) {
    let state = if b.label == ButtonLabel::Start { State::Start } else { b.state };
    match state {
        State::Start => (
            StartButton { label: ButtonLabel::Pause, color: Color::Green, state: State::Pause },
            ClickOutcome::Started { duration_secs: duration },
        ),
        State::Pause => (
            StartButton {
                label: ButtonLabel::Resume,
                color: Color::Blue,
                state: State::Resume(countdown),
            },
            ClickOutcome::Paused,
        ),
        State::Resume(seconds_left) => (
            StartButton { label: ButtonLabel::Pause, color: Color::Green, state: State::Pause },
            ClickOutcome::Started { duration_secs: seconds_left as u64 },
        ),
    }
}

pub open spec fn nanos_per_second() -> int {
    1_000_000_000
}

/// Whole seconds left of a countdown of `duration_secs` after the elapsed time
/// `elapsed_secs` seconds and `elapsed_nanos` nanoseconds, and none once it is over.
pub open spec fn remaining_seconds(duration_secs: int, elapsed_secs: int, elapsed_nanos: int) -> int {
    let left = duration_secs * nanos_per_second() - (elapsed_secs * nanos_per_second()
        + elapsed_nanos);
    if left <= 0 {
        0
    } else {
        left / nanos_per_second()
    }
}

/// A step of the running countdown: stop when asked, else show the seconds left
/// (cut to 32 bits) and finish when none are left.
pub open spec fn tick_result(duration_secs: int, elapsed_secs: int, elapsed_nanos: int, stop_requested: bool) -> Tick {
    if stop_requested {
        Tick::Stopped
    } else {
        let r = remaining_seconds(duration_secs, elapsed_secs, elapsed_nanos);
        Tick::Show { remaining: (r % 0x1_0000_0000) as u32, finished: r == 0 }
    }
}

impl ButtonLabel {
    /// The text on the button.
    pub fn text(&self) -> (t: &'static str)
        ensures
            t@ == label_text(*self),
    {
        match self {
            ButtonLabel::Start => "Start",
            ButtonLabel::Pause => "Pause",
            ButtonLabel::Resume => "Resume",
        }
    }
}

impl StartButton {
    /// A blue button labelled "Start".
    pub fn new() -> (b: StartButton)
        ensures
            b == (StartButton { label: ButtonLabel::Start, color: Color::Blue, state: State::Pause }),
            consistent(b),
    {
        StartButton { label: ButtonLabel::Start, color: Color::Blue, state: State::Pause }
    }

    /// The duration that the minute and second inputs set, in seconds.
    pub fn input_duration(minutes_text: &str, seconds_text: &str) -> (d: u64)
        requires
            inputs_readable(minutes_text@, seconds_text@),
        ensures
            d == input_duration(minutes_text@, seconds_text@),
    {
        let total: i32 = parse_i32(minutes_text).unwrap() * 60 + parse_i32(seconds_text).unwrap();
        assert(total < 0 ==> total as u64 == total + 0x1_0000_0000_0000_0000) by (bit_vector);
        total as u64
    }

    /// A press of the button, with the texts of the inputs and the seconds that the
    /// countdown shows.
    pub fn click(&mut self, minutes_text: &str, seconds_text: &str, countdown: u32) -> (o:
        ClickOutcome)
        requires
            inputs_readable(minutes_text@, seconds_text@),
        ensures
            (*final(self), o) == click_result(
                *old(self),
                input_duration(minutes_text@, seconds_text@) as u64,
                countdown,
            ),
            consistent(*final(self)),
    {
        self.color = Color::Blue;

        let mut duration = Self::input_duration(minutes_text, seconds_text);

        if self.label == ButtonLabel::Start {
            self.state = State::Start;
        }

        match self.state {
            State::Start => {
                self.label = ButtonLabel::Pause;
                self.state = State::Pause;
                self.color = Color::Green;
            },
            State::Pause => {
                self.label = ButtonLabel::Resume;
                self.state = State::Resume(countdown);
                return ClickOutcome::Paused;
            },
            State::Resume(seconds_left) => {
                self.label = ButtonLabel::Pause;
                self.state = State::Pause;
                self.color = Color::Green;
                duration = seconds_left as u64;
            },
        }
        ClickOutcome::Started { duration_secs: duration }
    }

    /// One step of a running countdown of `duration_secs` seconds, after the
    /// elapsed time `elapsed_secs` seconds and `elapsed_nanos` nanoseconds, and
    /// whether a stop message came.
    pub fn countdown_tick(
        duration_secs: u64,
        elapsed_secs: u64,
        elapsed_nanos: u32,
        stop_requested: bool,
    ) -> (t: Tick)
        requires
            elapsed_nanos < 1_000_000_000,
        ensures
            t == tick_result(duration_secs as int, elapsed_secs as int, elapsed_nanos as int, stop_requested),
    {
        if stop_requested {
            return Tick::Stopped;
        }
        let remaining: u64 = if elapsed_secs >= duration_secs {
            0
        } else if elapsed_nanos > 0 {
            duration_secs - elapsed_secs - 1
        } else {
            duration_secs - elapsed_secs
        };
        proof {
            lemma_remaining_seconds(duration_secs as int, elapsed_secs as int, elapsed_nanos as int);
        }
        assert(remaining as u32 == remaining % 0x1_0000_0000) by (bit_vector);
        Tick::Show { remaining: remaining as u32, finished: remaining == 0 }
    }
}

proof fn lemma_remaining_seconds(d: int, es: int, en: int)
    requires
        d >= 0,
        es >= 0,
        0 <= en < 1_000_000_000,
    ensures
        remaining_seconds(d, es, en) == if es >= d {
            0
        } else if en > 0 {
            d - es - 1
        } else {
            d - es
        },
{
    let ns = nanos_per_second();
    let left = d * ns - (es * ns + en);
    assert(left == (d - es) * ns - en) by (nonlinear_arith)
        requires
            left == d * ns - (es * ns + en),
    ;
    if es >= d {
        assert((d - es) * ns <= 0) by (nonlinear_arith)
            requires
                es >= d,
                ns == 1_000_000_000,
        ;
    } else if en > 0 {
        let k = d - es;
        assert(left == (k - 1) * ns + (ns - en)) by (nonlinear_arith)
            requires
                left == k * ns - en,
        ;
        assert(left > 0) by (nonlinear_arith)
            requires
                left == (k - 1) * ns + (ns - en),
                k >= 1,
                0 < en < ns,
        ;
        assert(left / ns == k - 1) by (nonlinear_arith)
            requires
                left == (k - 1) * ns + (ns - en),
                0 < ns - en < ns,
                k >= 1,
        ;
    } else {
        let k = d - es;
        assert(left == k * ns);
        assert(left > 0) by (nonlinear_arith)
            requires
                left == k * ns,
                k >= 1,
                ns == 1_000_000_000,
        ;
        assert(left / ns == k) by (nonlinear_arith)
            requires
                left == k * ns,
                ns == 1_000_000_000,
        ;
    }
}

/// Pausing a running countdown and pressing again resumes it from the seconds that
/// it showed when it was paused, whatever the inputs say by then.
pub proof fn lemma_pause_then_resume(b: StartButton, duration: u64, shown: u32, later_duration: u64, later_shown: u32)
    requires
        consistent(b),
        b.label == ButtonLabel::Pause,
    ensures
        ({
            let (paused, first) = click_result(b, duration, shown);
            let (resumed, second) = click_result(paused, later_duration, later_shown);
            &&& first == ClickOutcome::Paused
            &&& paused.label == ButtonLabel::Resume
            &&& second == (ClickOutcome::Started { duration_secs: shown as u64 })
            &&& resumed.label == ButtonLabel::Pause
        }),
{
}

/// A button labelled "Start" (as the set button leaves it) starts a countdown from
/// the inputs, whatever it was doing before.
pub proof fn lemma_start_reads_inputs(b: StartButton, duration: u64, shown: u32)
    requires
        b.label == ButtonLabel::Start,
    ensures
        click_result(b, duration, shown) == (
        StartButton { label: ButtonLabel::Pause, color: Color::Green, state: State::Pause },
        ClickOutcome::Started { duration_secs: duration },
        ),
{
}

/// The seconds left of a countdown never grow as time passes, never exceed its
/// duration, and are none once the whole duration has passed.
pub proof fn lemma_countdown_never_grows(
    duration_secs: nat,
    earlier_secs: nat,
    earlier_nanos: nat,
    later_secs: nat,
    later_nanos: nat,
)
    requires
        earlier_nanos < 1_000_000_000,
        later_nanos < 1_000_000_000,
        earlier_secs * 1_000_000_000 + earlier_nanos <= later_secs * 1_000_000_000 + later_nanos,
    ensures
        remaining_seconds(duration_secs as int, later_secs as int, later_nanos as int)
            <= remaining_seconds(duration_secs as int, earlier_secs as int, earlier_nanos as int),
        remaining_seconds(duration_secs as int, earlier_secs as int, earlier_nanos as int)
            <= duration_secs,
        earlier_secs >= duration_secs ==> remaining_seconds(
            duration_secs as int,
            earlier_secs as int,
            earlier_nanos as int,
        ) == 0,
{
    lemma_remaining_seconds(duration_secs as int, earlier_secs as int, earlier_nanos as int);
    lemma_remaining_seconds(duration_secs as int, later_secs as int, later_nanos as int);
    assert(earlier_secs <= later_secs) by (nonlinear_arith)
        requires
            earlier_secs * 1_000_000_000 + earlier_nanos <= later_secs * 1_000_000_000 + later_nanos,
            earlier_nanos < 1_000_000_000,
            later_nanos < 1_000_000_000,
    ;
    if earlier_secs == later_secs {
        assert(earlier_nanos <= later_nanos);
    }
}

/// A countdown shows its whole duration at its start, and a tick without a stop
/// message at that moment finishes only for a countdown of zero seconds.
pub proof fn lemma_countdown_starts_at_duration(duration_secs: u64)
    ensures
        remaining_seconds(duration_secs as int, 0, 0) == duration_secs,
        tick_result(duration_secs as int, 0, 0, false) == (Tick::Show {
            remaining: (duration_secs % 0x1_0000_0000) as u32,
            finished: duration_secs == 0,
        }),
{
    lemma_remaining_seconds(duration_secs as int, 0, 0);
}

/// A tick with a stop message stops; a tick without one shows the whole seconds
/// left of the duration after the elapsed time (none once it is over), and finishes
/// exactly when less than a whole second is left.
pub proof fn lemma_tick_finishes_when_no_second_left(duration_secs: u64, elapsed_secs: u64, elapsed_nanos: u32)
    requires
        elapsed_nanos < 1_000_000_000,
    ensures
        tick_result(duration_secs as int, elapsed_secs as int, elapsed_nanos as int, true)
            == Tick::Stopped,
        match tick_result(duration_secs as int, elapsed_secs as int, elapsed_nanos as int, false) {
            Tick::Show { remaining, finished } => {
                let left = duration_secs * 1_000_000_000 - (elapsed_secs * 1_000_000_000
                    + elapsed_nanos);
                &&& finished == (left < 1_000_000_000)
                &&& left <= 0 ==> remaining == 0
                &&& left > 0 ==> remaining as int == (left / 1_000_000_000) % 0x1_0000_0000
                &&& duration_secs < 0x1_0000_0000 ==> {
                    &&& left <= 0 ==> remaining == 0
                    &&& left > 0 ==> remaining * 1_000_000_000 <= left < (remaining + 1)
                        * 1_000_000_000
                }
            },
            Tick::Stopped => false,
        },
{
    let d = duration_secs as int;
    let es = elapsed_secs as int;
    let en = elapsed_nanos as int;
    let ns = 1_000_000_000int;
    lemma_remaining_seconds(d, es, en);
    let left = d * ns - (es * ns + en);
    assert(left == (d - es) * ns - en) by (nonlinear_arith)
        requires
            left == d * ns - (es * ns + en),
    ;
    let r = remaining_seconds(d, es, en);
    if es >= d {
        assert((d - es) * ns <= 0) by (nonlinear_arith)
            requires
                es >= d,
                ns == 1_000_000_000,
        ;
        assert(r == 0);
    } else if en > 0 {
        assert(r == d - es - 1);
        assert(left == r * ns + (ns - en)) by (nonlinear_arith)
            requires
                left == (d - es) * ns - en,
                r == d - es - 1,
        ;
        assert(r * ns >= 0) by (nonlinear_arith)
            requires
                r >= 0,
                ns == 1_000_000_000,
        ;
        assert((r == 0) == (left < ns)) by (nonlinear_arith)
            requires
                left == r * ns + (ns - en),
                0 < en < ns,
                r >= 0,
        ;
        assert(r <= d);
    } else {
        assert(r == d - es);
        assert(left == r * ns) by (nonlinear_arith)
            requires
                left == (d - es) * ns,
                r == d - es,
        ;
        assert(left >= ns) by (nonlinear_arith)
            requires
                left == r * ns,
                r >= 1,
                ns == 1_000_000_000,
        ;
    }
    assert(r <= d);
    if left > 0 {
        assert(r * ns <= left < (r + 1) * ns) by (nonlinear_arith)
            requires
                (left == r * ns + (ns - en) && 0 < en < ns) || (left == r * ns && en == 0),
                ns == 1_000_000_000,
        ;
        assert(left / ns == r) by (nonlinear_arith)
            requires
                r * ns <= left < (r + 1) * ns,
                ns == 1_000_000_000,
        ;
    }
    if d < 0x1_0000_0000 {
        assert(r % 0x1_0000_0000 == r);
    }
}

/// Pressing a button labelled "Start" runs a countdown of the minutes in the inputs
/// times sixty plus the seconds in the inputs; a negative total wraps round as an
/// `i32` converted by `as` to a `u64` does.
pub proof fn lemma_start_runs_for_typed_time(
    b: StartButton,
    minutes_text: Seq<char>,
    seconds_text: Seq<char>,
    minutes: i32,
    seconds: i32,
    shown: u32,
)
    requires
        b.label == ButtonLabel::Start,
        inputs_readable(minutes_text, seconds_text),
        i32_from_text(minutes_text) == Some(minutes),
        i32_from_text(seconds_text) == Some(seconds),
    ensures
        minutes * 60 + seconds >= 0 ==> click_result(
            b,
            input_duration(minutes_text, seconds_text) as u64,
            shown,
        ).1 == (ClickOutcome::Started { duration_secs: (minutes * 60 + seconds) as u64 }),
        minutes * 60 + seconds < 0 ==> click_result(
            b,
            input_duration(minutes_text, seconds_text) as u64,
            shown,
        ).1 == (ClickOutcome::Started {
            duration_secs: (minutes * 60 + seconds + 0x1_0000_0000_0000_0000) as u64,
        }),
{
}

/// The button reads "Start", "Pause" or "Resume", and the three texts differ.
pub proof fn lemma_label_texts()
    ensures
        label_text(ButtonLabel::Start) == "Start"@,
        label_text(ButtonLabel::Pause) == "Pause"@,
        label_text(ButtonLabel::Resume) == "Resume"@,
        label_text(ButtonLabel::Start) != label_text(ButtonLabel::Pause),
        label_text(ButtonLabel::Start) != label_text(ButtonLabel::Resume),
        label_text(ButtonLabel::Pause) != label_text(ButtonLabel::Resume),
{
    reveal_strlit("Start");
    reveal_strlit("Pause");
    reveal_strlit("Resume");
    assert("Start"@[0] != "Pause"@[0]);
    assert("Start"@.len() != "Resume"@.len());
    assert("Pause"@.len() != "Resume"@.len());
}

} // verus!
