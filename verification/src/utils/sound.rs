//! Which file an alert sound key plays.

use vstd::prelude::*;
use crate::utils::text::{str_eq, text};

verus! {

/// The sound file of a sound key, relative to the program's folder.
pub open spec fn sound_path(key: Seq<char>) -> Option<Seq<char>> {
    if key == "soft_chime"@ {
        Some("sounds/soft_chime.wav"@)
    } else if key == "digital_ping"@ {
        Some("sounds/digital_ping.wav"@)
    } else if key == "urgent_alarm"@ {
        Some("sounds/urgent_alarm.wav"@)
    } else if key == "emergency_triple"@ {
        Some("sounds/emergency_triple.wav"@)
    } else if key == "bell"@ {
        Some("sounds/bell.wav"@)
    } else {
        None
    }
}

/// The sound file of a sound key; nothing for an unknown key.
pub fn sound_file(sound_key: &str) -> (r: Option<String>)
    ensures
        match sound_path(sound_key@) {
            Some(p) => r matches Some(s) && s@ == p,
            None => r is None,
        },
{
    if str_eq(sound_key, "soft_chime") {
        Some(text("sounds/soft_chime.wav"))
    } else if str_eq(sound_key, "digital_ping") {
        Some(text("sounds/digital_ping.wav"))
    } else if str_eq(sound_key, "urgent_alarm") {
        Some(text("sounds/urgent_alarm.wav"))
    } else if str_eq(sound_key, "emergency_triple") {
        Some(text("sounds/emergency_triple.wav"))
    } else if str_eq(sound_key, "bell") {
        Some(text("sounds/bell.wav"))
    } else {
        None
    }
}

} // verus!
