use vstd::prelude::*;

use crate::text::{decimal, format_u32, i32_from_text, lemma_parse_decimal, parse_i32};

verus! {

/// The keyboard shortcuts of the timer window.
pub struct KeyboardEvent {}

/// The keys that the timer reacts to.
#[derive(Debug, Copy, Clone, PartialEq, Eq, Structural)]
pub enum Key {
    Up,
    Down,
    Enter,
    Other,
}

/// A change of the minute and second inputs asked for by a key.
#[derive(Debug, Copy, Clone, PartialEq, Eq, Structural)]
pub struct Adjustment {
    pub minutes: i32,
    pub seconds: i32,
}

/// The new texts of the minute and second inputs, and the countdown they set.
pub struct InputUpdate {
    pub minutes_text: String,
    pub seconds_text: String,
    pub countdown: u32,
}

/// The change that a released key asks for, with Ctrl and Shift held or not:
/// Ctrl+Shift and arrow steps the seconds by five, Shift and arrow by one,
/// Ctrl and arrow steps the minutes by five, an arrow alone by one.
pub open spec fn key_adjustment(key: Key, ctrl: bool, shift: bool) -> Option<(int, int)> {
    if ctrl && shift && key == Key::Up {
        Some((0, 5))
    } else if ctrl && shift && key == Key::Down {
        Some((0, -5))
    } else if shift && key == Key::Up {
        Some((0, 1))
    } else if shift && key == Key::Down {
        Some((0, -1))
    } else if ctrl && key == Key::Up {
        Some((5, 0))
    } else if ctrl && key == Key::Down {
        Some((-5, 0))
    } else if key == Key::Up {
        Some((1, 0))
    } else if key == Key::Down {
        Some((-1, 0))
    } else {
        None
    }
}

/// The minutes after a change: kept between 0 and 99.
pub open spec fn adjusted_minutes(minutes: int, increase: int) -> int {
    let m = minutes + increase;
    if m < 0 {
        0
    } else if m > 99 {
        99
    } else {
        m
    }
}

/// The seconds after a change: kept between 0 and 59, and at least one when no
/// minute is left, so that the countdown never becomes zero.
pub open spec fn adjusted_seconds(new_minutes: int, seconds: int, increase: int) -> int {
    let s0 = seconds + increase;
    let s1 = if new_minutes <= 0 && s0 <= 0 { 1 } else { s0 };
    if s1 < 0 {
        0
    } else if s1 >= 60 {
        59
    } else {
        s1
    }
}

/// The inputs hold texts that parse as numbers, and the change does not overflow.
pub open spec fn inputs_adjustable(minutes_text: Seq<char>, seconds_text: Seq<char>, increase_minutes: int, increase_seconds: int) -> bool {
    &&& i32_from_text(minutes_text) is Some
    &&& i32_from_text(seconds_text) is Some
    &&& i32::MIN <= i32_from_text(minutes_text)->0 + increase_minutes <= i32::MAX
    &&& i32::MIN <= i32_from_text(seconds_text)->0 + increase_seconds <= i32::MAX
}

impl KeyboardEvent {
    /// Enter presses the start button.
    pub fn presses_start(key: Key) -> (b: bool)
        ensures
            b == (key == Key::Enter),
    {
        match key {
            Key::Enter => true,
            _ => false,
        }
    }

    /// The change of the inputs that a released key asks for.
    pub fn adjustment(key: Key, ctrl: bool, shift: bool) -> (a: Option<Adjustment>)
        ensures
            match key_adjustment(key, ctrl, shift) {
                Some((m, s)) => a == Some(Adjustment { minutes: m as i32, seconds: s as i32 }),
                None => a is None,
            },
    {
        let is_ctrl_shift = ctrl && shift;
        let up = Self::is_up(key);
        let down = Self::is_down(key);
        if is_ctrl_shift && up {
            Some(Adjustment { minutes: 0, seconds: 5 })
        } else if is_ctrl_shift && down {
            Some(Adjustment { minutes: 0, seconds: -5 })
        } else if shift && up {
            Some(Adjustment { minutes: 0, seconds: 1 })
        } else if shift && down {
            Some(Adjustment { minutes: 0, seconds: -1 })
        } else if ctrl && up {
            Some(Adjustment { minutes: 5, seconds: 0 })
        } else if ctrl && down {
            Some(Adjustment { minutes: -5, seconds: 0 })
        } else if up {
            Some(Adjustment { minutes: 1, seconds: 0 })
        } else if down {
            Some(Adjustment { minutes: -1, seconds: 0 })
        } else {
            None
        }
    }

    fn is_up(key: Key) -> (b: bool)
        ensures
            b == (key == Key::Up),
    {
        match key {
            Key::Up => true,
            _ => false,
        }
    }

    fn is_down(key: Key) -> (b: bool)
        ensures
            b == (key == Key::Down),
    {
        match key {
            Key::Down => true,
            _ => false,
        }
    }

    /// Changes the minute and second inputs by the given steps, keeps them in
    /// range, writes them back and reads the countdown from what was written.
    /// The countdown is always between one second and 99:59.
    pub fn update_countdown(
        minutes_text: &str,
        seconds_text: &str,
        increase_minutes: i32,
        increase_seconds: i32,
    ) -> (u: InputUpdate)
        requires
            inputs_adjustable(minutes_text@, seconds_text@, increase_minutes as int, increase_seconds as int),
        ensures
            ({
                let m = adjusted_minutes(i32_from_text(minutes_text@)->0 as int, increase_minutes as int);
                let s = adjusted_seconds(m, i32_from_text(seconds_text@)->0 as int, increase_seconds as int);
                &&& u.minutes_text@ == decimal(m as nat)
                &&& u.seconds_text@ == decimal(s as nat)
                &&& u.countdown == m * 60 + s
            }),
            1 <= u.countdown <= 5999,
    {
        let mut new_input_minutes = parse_i32(minutes_text).unwrap() + increase_minutes;

        if new_input_minutes < 0 {
            new_input_minutes = 0;
        }
        if new_input_minutes > 99 {
            new_input_minutes = 99;
        }

        let mut new_input_seconds = parse_i32(seconds_text).unwrap() + increase_seconds;

        if new_input_minutes <= 0 && new_input_seconds <= 0 {
            new_input_seconds = 1;
        }

        let new_minutes_text = format_u32(new_input_minutes as u32);

        if new_input_seconds < 0 {
            new_input_seconds = 0;
        }
        if new_input_seconds >= 60 {
            new_input_seconds = 59;
        }

        let new_seconds_text = format_u32(new_input_seconds as u32);

        proof {
            lemma_parse_decimal(new_input_minutes as nat);
            lemma_parse_decimal(new_input_seconds as nat);
        }
        let countdown = (parse_i32(new_minutes_text.as_str()).unwrap() * 60 + parse_i32(
            new_seconds_text.as_str(),
        ).unwrap()) as u32;

        InputUpdate { minutes_text: new_minutes_text, seconds_text: new_seconds_text, countdown }
    }
}

/// An arrow key steps one field: Shift picks the seconds, otherwise the minutes;
/// Ctrl makes the step five, otherwise one; Up adds and Down takes away. No other
/// key changes anything.
pub proof fn lemma_arrow_steps(key: Key, ctrl: bool, shift: bool)
    ensures
        (key == Key::Up || key == Key::Down) ==> {
            let step: int = if ctrl { 5 } else { 1 };
            let signed: int = if key == Key::Up { step } else { -step };
            key_adjustment(key, ctrl, shift) == Some(
                if shift { (0int, signed) } else { (signed, 0int) },
            )
        },
        !(key == Key::Up || key == Key::Down) ==> key_adjustment(key, ctrl, shift) is None,
{
}

/// The new minutes are the old plus the step, kept between 0 and 99: a step below
/// zero gives zero, above 99 gives 99.
pub proof fn lemma_minutes_step_clamped(minutes: int, increase: int)
    ensures
        0 <= adjusted_minutes(minutes, increase) <= 99,
        minutes + increase < 0 ==> adjusted_minutes(minutes, increase) == 0,
        minutes + increase > 99 ==> adjusted_minutes(minutes, increase) == 99,
        0 <= minutes + increase <= 99 ==> adjusted_minutes(minutes, increase) == minutes
            + increase,
{
}

/// The new seconds are the old plus the step, kept between 0 and 59, except that
/// with no minute left and nothing above zero they become one second.
pub proof fn lemma_seconds_step_clamped(new_minutes: int, seconds: int, increase: int)
    ensures
        0 <= adjusted_seconds(new_minutes, seconds, increase) <= 59,
        new_minutes <= 0 && seconds + increase <= 0 ==> adjusted_seconds(
            new_minutes,
            seconds,
            increase,
        ) == 1,
        new_minutes > 0 && seconds + increase < 0 ==> adjusted_seconds(
            new_minutes,
            seconds,
            increase,
        ) == 0,
        seconds + increase > 59 ==> adjusted_seconds(new_minutes, seconds, increase) == 59,
        0 < seconds + increase <= 59 ==> adjusted_seconds(new_minutes, seconds, increase)
            == seconds + increase,
        new_minutes > 0 && seconds + increase == 0 ==> adjusted_seconds(
            new_minutes,
            seconds,
            increase,
        ) == 0,
{
}

} // verus!
