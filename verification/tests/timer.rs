use std::time::Duration;

use tim::audio::{Audio, PlaybackPlan};
use tim::buttons::set_button::{SetButton, WindowLayout};
use tim::buttons::start_button::{ButtonLabel, ClickOutcome, StartButton, State, Tick, INITIAL_COUNTDOWN};
use tim::color::Color;
use tim::keyboard_event::{Adjustment, Key, KeyboardEvent};
use tim::menu_bar::MenuBar;
use tim::status_bar::StatusBar;
use tim::text::{contains, format_two_digits, format_u32, parse_i32, replace, text_eq};
use tim::traits::convert_countdown::ConvertCountdown;
use tim::window_manager::WindowManager;
use tim::{ChannelMessage, WINDOW_HEIGHT, WINDOW_WIDTH};

#[test]
fn format_u32_writes_decimal() {
    assert_eq!(format_u32(0), "0");
    assert_eq!(format_u32(7), "7");
    assert_eq!(format_u32(10), "10");
    assert_eq!(format_u32(1234567), "1234567");
    assert_eq!(format_u32(u32::MAX), u32::MAX.to_string());
}

#[test]
fn format_two_digits_pads_below_ten() {
    assert_eq!(format_two_digits(0), "00");
    assert_eq!(format_two_digits(5), "05");
    assert_eq!(format_two_digits(42), "42");
    assert_eq!(format_two_digits(123), "123");
}

#[test]
fn parse_i32_agrees_with_std() {
    let cases = [
        "42", "-7", "+8", "", "-", "+", "12a", "a12", "2147483647", "2147483648", "-2147483648",
        "-2147483649", "00012", "-0", "99999999999999999999", " 1", "1 ", "--1", "+-1", "0",
    ];
    for case in cases {
        assert_eq!(parse_i32(case), case.parse::<i32>().ok(), "case {:?}", case);
    }
}

#[test]
fn parse_reads_back_what_format_wrote() {
    for n in [0u32, 1, 9, 10, 99, 100, 5999, 65535, 2147483647] {
        assert_eq!(parse_i32(&format_u32(n)), Some(n as i32));
    }
}

#[test]
fn contains_agrees_with_std() {
    let cases = [
        ("/Applications/Tim.app/Contents", "Tim.app"),
        ("/home/me/tim", "Tim.app"),
        ("", ""),
        ("abc", ""),
        ("ab", "abc"),
        ("aab", "ab"),
        ("x/default_alarm.wav", "default_alarm.wav"),
    ];
    for (s, p) in cases {
        assert_eq!(contains(s, p), s.contains(p), "case {:?} {:?}", s, p);
    }
}

#[test]
fn replace_agrees_with_std() {
    let cases = [
        ("/Applications/Tim.app/Contents/MacOS/tim", "/MacOS/tim", "/Resources/assets/"),
        ("aaa", "aa", "b"),
        ("abcabc", "bc", ""),
        ("nothing here", "/MacOS/tim", "x"),
        ("", "a", "b"),
        ("ééaé", "é", "e"),
    ];
    for (s, p, r) in cases {
        assert_eq!(replace(s, p, r), s.replace(p, r), "case {:?} {:?} {:?}", s, p, r);
    }
}

#[test]
fn text_eq_compares_strings() {
    assert!(text_eq("/", "/"));
    assert!(!text_eq("/", "//"));
    assert!(!text_eq("ab", "ac"));
    assert!(text_eq("", ""));
}

#[test]
fn to_minutes_seconds_splits_countdown() {
    let w = WindowManager::new(Color::Black);
    assert_eq!(w.to_minutes_seconds(300), ("05".to_string(), "00".to_string()));
    assert_eq!(w.to_minutes_seconds(59), ("00".to_string(), "59".to_string()));
    assert_eq!(w.to_minutes_seconds(61), ("01".to_string(), "01".to_string()));
    assert_eq!(w.to_minutes_seconds(6000), ("100".to_string(), "00".to_string()));
    assert_eq!(w.to_minutes_seconds(0), ("00".to_string(), "00".to_string()));
}

#[test]
fn window_turns_dark_blue_at_one_minute() {
    let mut w = WindowManager::new(Color::Black);
    let d = w.update_countdown(60, true);
    assert_eq!(d.label, "01:00");
    assert!(!d.play_alarm);
    assert_eq!(w.background, Color::DarkBlue);
}

#[test]
fn window_turns_red_in_last_ten_seconds() {
    let mut w = WindowManager::new(Color::Black);
    let d = w.update_countdown(10, true);
    assert_eq!(d.label, "00:10");
    assert_eq!(w.background, Color::Red);
    let mut w = WindowManager::new(Color::Black);
    w.update_countdown(11, true);
    assert_eq!(w.background, Color::Black);
    w.update_countdown(1, true);
    assert_eq!(w.background, Color::Red);
}

#[test]
fn window_sounds_alarm_at_zero_only_when_updating() {
    let mut w = WindowManager::new(Color::Red);
    let d = w.update_countdown(0, true);
    assert_eq!(d.label, "00:00");
    assert!(d.play_alarm);
    assert_eq!(w.background, Color::Red);
    let d = w.update_countdown(0, false);
    assert!(!d.play_alarm);
}

#[test]
fn window_keeps_background_without_update() {
    let mut w = WindowManager::new(Color::Black);
    let d = w.update_countdown(60, false);
    assert_eq!(d.label, "01:00");
    assert_eq!(w.background, Color::Black);
    w.set_color(Color::Green);
    assert_eq!(w.background, Color::Green);
}

#[test]
fn status_bar_title_is_empty_at_zero() {
    let mut s = StatusBar::new();
    assert_eq!(s.title, "");
    s.update_countdown(125);
    assert_eq!(s.title, "02:05");
    s.update_countdown(0);
    assert_eq!(s.title, "");
}

#[test]
fn assets_path_outside_bundle() {
    assert_eq!(Audio::get_assets_path("/home/me/tim", None), "/home/me/tim/assets/");
    assert_eq!(Audio::get_assets_path("/home/me/tim", Some("/bin/tim")), "/home/me/tim/assets/");
}

#[test]
fn assets_path_inside_bundle() {
    assert_eq!(
        Audio::get_assets_path("/Applications/Tim.app/Contents", Some("/Applications/Tim.app/Contents/MacOS/tim")),
        "/Applications/Tim.app/Contents/Resources/assets/"
    );
    assert_eq!(Audio::get_assets_path("/", Some("/x/MacOS/tim")), "/x/Resources/assets/");
    assert_eq!(Audio::get_assets_path("/", None), "");
}

#[test]
fn file_path_prefers_custom_alarm() {
    assert_eq!(Audio::get_file_path("", true), "");
    assert_eq!(Audio::get_file_path("", false), "");
    assert_eq!(Audio::get_file_path("/a/assets/", true), "/a/assets/alarm.mp3");
    assert_eq!(Audio::get_file_path("/a/assets/", false), "/a/assets/default_alarm.wav");
    assert_eq!(Audio::custom_alarm_path("/a/assets/"), "/a/assets/alarm.mp3");
}

#[test]
fn playback_plan_repeats_default_sound() {
    assert_eq!(
        Audio::playback_plan("/a/assets/default_alarm.wav"),
        PlaybackPlan { plays: 10, seconds_after_each: 1 }
    );
    assert_eq!(
        Audio::playback_plan("/a/assets/alarm.mp3"),
        PlaybackPlan { plays: 1, seconds_after_each: 60 }
    );
    assert_eq!(Audio::playback_plan(""), PlaybackPlan { plays: 1, seconds_after_each: 60 });
}

#[test]
fn keys_map_to_adjustments() {
    let adj = |m, s| Some(Adjustment { minutes: m, seconds: s });
    assert_eq!(KeyboardEvent::adjustment(Key::Up, true, true), adj(0, 5));
    assert_eq!(KeyboardEvent::adjustment(Key::Down, true, true), adj(0, -5));
    assert_eq!(KeyboardEvent::adjustment(Key::Up, false, true), adj(0, 1));
    assert_eq!(KeyboardEvent::adjustment(Key::Down, false, true), adj(0, -1));
    assert_eq!(KeyboardEvent::adjustment(Key::Up, true, false), adj(5, 0));
    assert_eq!(KeyboardEvent::adjustment(Key::Down, true, false), adj(-5, 0));
    assert_eq!(KeyboardEvent::adjustment(Key::Up, false, false), adj(1, 0));
    assert_eq!(KeyboardEvent::adjustment(Key::Down, false, false), adj(-1, 0));
    assert_eq!(KeyboardEvent::adjustment(Key::Enter, true, true), None);
    assert_eq!(KeyboardEvent::adjustment(Key::Other, false, false), None);
    assert!(KeyboardEvent::presses_start(Key::Enter));
    assert!(!KeyboardEvent::presses_start(Key::Up));
}

#[test]
fn keyboard_update_steps_minutes() {
    let u = KeyboardEvent::update_countdown("5", "0", 1, 0);
    assert_eq!((u.minutes_text.as_str(), u.seconds_text.as_str(), u.countdown), ("6", "0", 360));
    let u = KeyboardEvent::update_countdown("97", "30", 5, 0);
    assert_eq!((u.minutes_text.as_str(), u.seconds_text.as_str(), u.countdown), ("99", "30", 5970));
}

#[test]
fn keyboard_update_never_reaches_zero() {
    let u = KeyboardEvent::update_countdown("0", "0", 0, -1);
    assert_eq!((u.minutes_text.as_str(), u.seconds_text.as_str(), u.countdown), ("0", "1", 1));
    let u = KeyboardEvent::update_countdown("0", "1", -1, 0);
    assert_eq!((u.minutes_text.as_str(), u.seconds_text.as_str(), u.countdown), ("0", "1", 1));
    let u = KeyboardEvent::update_countdown("-5", "-3", 0, 0);
    assert_eq!((u.minutes_text.as_str(), u.seconds_text.as_str(), u.countdown), ("0", "1", 1));
}

#[test]
fn keyboard_update_clamps_seconds() {
    let u = KeyboardEvent::update_countdown("3", "70", 0, 5);
    assert_eq!((u.minutes_text.as_str(), u.seconds_text.as_str(), u.countdown), ("3", "59", 239));
    let u = KeyboardEvent::update_countdown("3", "2", 0, -5);
    assert_eq!((u.minutes_text.as_str(), u.seconds_text.as_str(), u.countdown), ("3", "0", 180));
    let u = KeyboardEvent::update_countdown("99", "59", 5, 5);
    assert_eq!(u.countdown, 5999);
}

#[test]
fn start_pause_resume_cycle() {
    let mut b = StartButton::new();
    assert_eq!(b.label, ButtonLabel::Start);
    assert_eq!(b.color, Color::Blue);
    assert_eq!(b.click("5", "0", INITIAL_COUNTDOWN), ClickOutcome::Started { duration_secs: 300 });
    assert_eq!((b.label, b.color, b.state), (ButtonLabel::Pause, Color::Green, State::Pause));
    assert_eq!(b.click("5", "0", 120), ClickOutcome::Paused);
    assert_eq!((b.label, b.color, b.state), (ButtonLabel::Resume, Color::Blue, State::Resume(120)));
    assert_eq!(b.click("9", "9", 7), ClickOutcome::Started { duration_secs: 120 });
    assert_eq!((b.label, b.color, b.state), (ButtonLabel::Pause, Color::Green, State::Pause));
}

#[test]
fn start_duration_wraps_negative_inputs() {
    assert_eq!(StartButton::input_duration("1", "30"), 90);
    assert_eq!(StartButton::input_duration("-1", "0"), (-60i64) as u64);
    let mut b = StartButton::new();
    assert_eq!(b.click("0", "-1", 0), ClickOutcome::Started { duration_secs: u64::MAX });
}

#[test]
fn set_button_resets_start_and_toggles_inputs() {
    let mut b = StartButton::new();
    b.click("1", "0", 60);
    b.click("1", "0", 42);
    let layout = SetButton::on_click(&mut b, 520);
    assert_eq!(layout, WindowLayout { show_inputs: false, width: WINDOW_WIDTH, height: WINDOW_HEIGHT });
    assert_eq!((b.label, b.color, b.state), (ButtonLabel::Start, Color::Blue, State::Resume(42)));
    assert_eq!(SetButton::on_click(&mut b, 260), WindowLayout { show_inputs: true, width: 200, height: 260 });
    assert_eq!(b.click("2", "5", 42), ClickOutcome::Started { duration_secs: 125 });
}

#[test]
fn countdown_tick_counts_whole_seconds() {
    assert_eq!(StartButton::countdown_tick(10, 0, 0, false), Tick::Show { remaining: 10, finished: false });
    assert_eq!(StartButton::countdown_tick(10, 3, 0, false), Tick::Show { remaining: 7, finished: false });
    assert_eq!(StartButton::countdown_tick(10, 3, 1, false), Tick::Show { remaining: 6, finished: false });
    assert_eq!(StartButton::countdown_tick(10, 9, 5, false), Tick::Show { remaining: 0, finished: true });
    assert_eq!(StartButton::countdown_tick(10, 10, 0, false), Tick::Show { remaining: 0, finished: true });
    assert_eq!(StartButton::countdown_tick(10, 12, 5, false), Tick::Show { remaining: 0, finished: true });
    assert_eq!(StartButton::countdown_tick(10, 3, 0, true), Tick::Stopped);
}

#[test]
fn countdown_tick_cuts_to_32_bits() {
    assert_eq!(
        StartButton::countdown_tick((1u64 << 32) + 5, 0, 0, false),
        Tick::Show { remaining: 5, finished: false }
    );
    assert_eq!(
        StartButton::countdown_tick(1u64 << 32, 0, 0, false),
        Tick::Show { remaining: 0, finished: false }
    );
}

#[test]
fn countdown_tick_agrees_with_duration_arithmetic() {
    for (d, es, en) in [(10u64, 3u64, 0u32), (10, 3, 999_999_999), (300, 299, 1), (5, 7, 3), (0, 0, 0)] {
        let elapsed = Duration::new(es, en);
        let remaining = Duration::from_secs(d).checked_sub(elapsed).unwrap_or_else(|| Duration::new(0, 0));
        assert_eq!(
            StartButton::countdown_tick(d, es, en, false),
            Tick::Show { remaining: remaining.as_secs() as u32, finished: remaining.as_secs() == 0 }
        );
    }
}

#[test]
fn label_texts() {
    assert_eq!(ButtonLabel::Start.text(), "Start");
    assert_eq!(ButtonLabel::Pause.text(), "Pause");
    assert_eq!(ButtonLabel::Resume.text(), "Resume");
}

#[test]
fn menu_opens_manual() {
    assert_eq!(MenuBar::help_entry_path(), "&Help/Open Manual in Browser");
    assert_eq!(
        MenuBar::url_for_choice(Some("Open Manual in Browser")),
        Some("https://github.com/ddno/tim/blob/main/README.md")
    );
    assert_eq!(MenuBar::url_for_choice(Some("Quit")), None);
    assert_eq!(MenuBar::url_for_choice(None), None);
}

#[test]
fn channel_messages_compare() {
    assert_eq!(ChannelMessage::UpdateCountdown(3, true), ChannelMessage::UpdateCountdown(3, true));
    assert_ne!(ChannelMessage::UpdateCountdown(3, true), ChannelMessage::StopCountdown);
}
