//! The stored warning settings.

use vstd::prelude::*;
use crate::utils::text::text;

verus! {

/// The warning settings kept in the configuration store: how long before
/// a target the warning comes, and how it sounds.
pub struct WarnSettings {
    pub warn_seconds: u32,
    pub warn_sound_enabled: bool,
    pub warn_sound_key: String,
    pub warn_sound_repeat: String,
}

impl WarnSettings {
    /// The defaults: ten seconds, the soft chime, once.
    pub fn default_settings() -> (s: Self)
        ensures
            s.warn_seconds == 10,
            s.warn_sound_enabled,
            s.warn_sound_key@ == "soft_chime"@,
            s.warn_sound_repeat@ == "1"@,
    {
        WarnSettings {
            warn_seconds: 10,
            warn_sound_enabled: true,
            warn_sound_key: text("soft_chime"),
            warn_sound_repeat: text("1"),
        }
    }
}

} // verus!
