use vstd::prelude::*;

use crate::text::{lemma_contains_suffix, contains, contains_text, replace, replace_text, text_eq};

verus! {

/// The alarm: where its sound file lies and how it is played.
pub struct Audio;

/// How the alarm sound is played: `plays` times, each followed by a pause of
/// `seconds_after_each` seconds.
#[derive(Debug, Copy, Clone, PartialEq, Eq, Structural)]
pub struct PlaybackPlan {
    pub plays: u32,
    pub seconds_after_each: u64,
}

/// The folder of the sound files, from the working directory and the path of the
/// running program: `<dir>/assets/` when the program runs outside an app bundle
/// and not from the root directory; otherwise the bundle's `Resources/assets/`
/// folder next to the program, or nothing when the program's path is unknown.
pub open spec fn assets_path(current_dir: Seq<char>, current_exe: Option<Seq<char>>) -> Seq<char> {
    if !contains_text(current_dir, "Tim.app"@) && current_dir != "/"@ {
        current_dir + "/assets/"@
    } else {
        match current_exe {
            Some(exe) => replace_text(exe, "/MacOS/tim"@, "/Resources/assets/"@),
            None => Seq::<char>::empty(),
        }
    }
}

/// The path of a sound file that the user put in the assets folder.
pub open spec fn custom_alarm_path(assets_path: Seq<char>) -> Seq<char> {
    assets_path + "alarm.mp3"@
}

/// The sound file to play: none without an assets folder; the user's own file
/// where it exists; the shipped default otherwise.
pub open spec fn alarm_file_path(assets_path: Seq<char>, custom_alarm_exists: bool) -> Seq<char> {
    if assets_path == ""@ {
        Seq::<char>::empty()
    } else if custom_alarm_exists {
        custom_alarm_path(assets_path)
    } else {
        assets_path + "default_alarm.wav"@
    }
}

/// The shipped default sound, one second long, plays ten times a second apart; any
/// other sound plays once, followed by a minute of silence.
pub open spec fn playback_plan(alarm_file_path: Seq<char>) -> PlaybackPlan {
    if contains_text(alarm_file_path, "default_alarm.wav"@) {
        PlaybackPlan { plays: 10, seconds_after_each: 1 }
    } else {
        PlaybackPlan { plays: 1, seconds_after_each: 60 }
    }
}

pub open spec fn option_text(s: Option<&str>) -> Option<Seq<char>> {
    match s {
        Some(t) => Some(t@),
        None => None,
    }
}

impl Audio {
    /// Chooses the sound file, given the assets folder and whether the user's own
    /// sound file exists there.
    pub fn get_file_path(assets_path: &str, custom_alarm_exists: bool) -> (p: String)
        ensures
            p@ == alarm_file_path(assets_path@, custom_alarm_exists),
    {
        if text_eq(assets_path, "") {
            return String::new();
        }
        if custom_alarm_exists {
            return Self::custom_alarm_path(assets_path);
        }
        let mut path = String::from_str(assets_path);
        path.append("default_alarm.wav");
        path
    }

    /// Where the user's own sound file would lie in the assets folder.
    pub fn custom_alarm_path(assets_path: &str) -> (p: String)
        ensures
            p@ == custom_alarm_path(assets_path@),
    {
        let mut path = String::from_str(assets_path);
        path.append("alarm.mp3");
        path
    }

    /// Finds the assets folder from the working directory and the path of the
    /// running program, where it is known.
    pub fn get_assets_path(current_dir: &str, current_exe: Option<&str>) -> (p: String)
        ensures
            p@ == assets_path(current_dir@, option_text(current_exe)),
    {
        if !contains(current_dir, "Tim.app") && !text_eq(current_dir, "/") {
            let mut path = String::from_str(current_dir);
            path.append("/assets/");
            return path;
        } else {
            if let Some(exe_path) = current_exe {
                proof {
                    reveal_strlit("/MacOS/tim");
                }
                return replace(exe_path, "/MacOS/tim", "/Resources/assets/");
            }
        }
        String::new()
    }

    /// How to play the sound file at `alarm_file_path`.
    pub fn playback_plan(alarm_file_path: &str) -> (plan: PlaybackPlan)
        ensures
            plan == playback_plan(alarm_file_path@),
    {
        if contains(alarm_file_path, "default_alarm.wav") {
            PlaybackPlan { plays: 10, seconds_after_each: 1 }
        } else {
            PlaybackPlan { plays: 1, seconds_after_each: 60 }
        }
    }
}

/// Without a sound file of the user's own, the alarm is the shipped sound, played
/// ten times a second apart.
pub proof fn lemma_default_alarm_plays_ten_times(assets_path: Seq<char>)
    requires
        assets_path != ""@,
    ensures
        playback_plan(alarm_file_path(assets_path, false)) == (PlaybackPlan {
            plays: 10,
            seconds_after_each: 1,
        }),
{
    lemma_contains_suffix(assets_path, "default_alarm.wav"@);
}

/// The sound file: none without an assets folder; in the assets folder, the user's
/// `alarm.mp3` where it exists, else the shipped `default_alarm.wav`.
pub proof fn lemma_alarm_file_choice(assets_path: Seq<char>, custom_alarm_exists: bool)
    ensures
        assets_path.len() == 0 ==> alarm_file_path(assets_path, custom_alarm_exists).len() == 0,
        assets_path.len() > 0 && custom_alarm_exists ==> alarm_file_path(
            assets_path,
            custom_alarm_exists,
        ) == assets_path + "alarm.mp3"@,
        assets_path.len() > 0 && !custom_alarm_exists ==> alarm_file_path(
            assets_path,
            custom_alarm_exists,
        ) == assets_path + "default_alarm.wav"@,
{
    reveal_strlit("");
    if assets_path.len() > 0 {
        assert(assets_path != ""@);
    } else {
        assert(assets_path =~= ""@);
    }
}

/// A path that names the shipped sound plays it ten times a second apart; any other
/// plays once and then waits a minute.
pub proof fn lemma_playback_rule(alarm_file_path: Seq<char>)
    ensures
        contains_text(alarm_file_path, "default_alarm.wav"@) ==> playback_plan(alarm_file_path)
            == (PlaybackPlan { plays: 10, seconds_after_each: 1 }),
        !contains_text(alarm_file_path, "default_alarm.wav"@) ==> playback_plan(alarm_file_path)
            == (PlaybackPlan { plays: 1, seconds_after_each: 60 }),
{
}

/// Outside an app bundle, and not at the root, the assets folder is `assets/` in the
/// working directory; otherwise it is found from the program's path in the bundle,
/// and is unknown when that path is.
pub proof fn lemma_assets_folder_choice(current_dir: Seq<char>, current_exe: Option<Seq<char>>)
    ensures
        !contains_text(current_dir, "Tim.app"@) && current_dir != "/"@ ==> assets_path(
            current_dir,
            current_exe,
        ) == current_dir + "/assets/"@,
        (contains_text(current_dir, "Tim.app"@) || current_dir == "/"@) ==> assets_path(
            current_dir,
            current_exe,
        ) == match current_exe {
            Some(exe) => replace_text(exe, "/MacOS/tim"@, "/Resources/assets/"@),
            None => Seq::<char>::empty(),
        },
{
}

} // verus!
