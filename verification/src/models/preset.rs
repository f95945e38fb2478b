//! Timer presets: slot definitions, preset kinds and slot status.

use vstd::prelude::*;

verus! {

/// One timer slot of a preset: its first wait, its loop interval and how
/// long before the end the warning fires (all in seconds).
pub struct TimerSlotDef {
    pub id: String,
    pub name: String,
    pub first: u32,
    pub loop_interval: u32,
    pub warn_seconds: u32,
    pub warn_text: Option<String>,
    pub hotkey: Option<String>,
    pub bar_color: Option<String>,
    pub text_color: Option<String>,
}

/// Copies an optional string.
pub fn clone_opt_string(o: &Option<String>) -> (r: Option<String>)
    ensures
        r == *o,
{
    match o {
        Some(s) => Some(s.clone()),
        None => None,
    }
}

impl Clone for TimerSlotDef {
    fn clone(&self) -> (r: Self)
        ensures
            r == *self,
    {
        TimerSlotDef {
            id: self.id.clone(),
            name: self.name.clone(),
            first: self.first,
            loop_interval: self.loop_interval,
            warn_seconds: self.warn_seconds,
            warn_text: clone_opt_string(&self.warn_text),
            hotkey: clone_opt_string(&self.hotkey),
            bar_color: clone_opt_string(&self.bar_color),
            text_color: clone_opt_string(&self.text_color),
        }
    }
}

/// Status of a running slot.
#[derive(Debug, Clone, Copy, PartialEq, Eq, Structural)]
pub enum SlotStatus {
    Idle,
    Running,
    Paused,
    Warning,
    Triggered,
}

} // verus!

verus! {

use crate::ids::{new_id, utc_now_rfc3339, utc_timestamp_text, uuid_v4_text};

/// A preset is a single looping timer or a set of independent slots.
pub enum PresetType {
    Single {
        first: u32,
        loop_interval: u32,
        followups: Vec<u32>,
        warn_seconds: u32,
        warn_text: Option<String>,
        hotkey: Option<String>,
        bar_color: Option<String>,
        text_color: Option<String>,
    },
    Multi { slots: Vec<TimerSlotDef>, sequential: bool },
}

/// A named timer preset. `created_at` and `updated_at` are RFC 3339 time stamps.
pub struct TimerPreset {
    pub id: String,
    pub name: String,
    pub desc: Option<String>,
    pub hint: Option<String>,
    pub note: Option<String>,
    pub preset_type: PresetType,
    pub created_at: String,
    pub updated_at: String,
    pub is_builtin: bool,
}

impl TimerPreset {
    /// A new user preset with a fresh id, created and updated now.
    pub fn new(name: &str, preset_type: PresetType) -> (p: Self)
        ensures
            uuid_v4_text(p.id@),
            p.name@ == name@,
            p.desc is None,
            p.hint is None,
            p.note is None,
            p.preset_type == preset_type,
            p.created_at == p.updated_at,
            utc_timestamp_text(p.created_at@),
            !p.is_builtin,
    {
        let now = utc_now_rfc3339();
        TimerPreset {
            id: new_id(),
            name: name.to_owned(),
            desc: None,
            hint: None,
            note: None,
            preset_type,
            created_at: now.clone(),
            updated_at: now,
            is_builtin: false,
        }
    }
}

/// The shown state of one slot.
pub struct TimerSlotState {
    pub id: String,
    pub name: String,
    pub status: SlotStatus,
    pub elapsed_ms: u64,
    pub target_ms: u64,
    pub remaining_ms: u64,
    pub loop_count: u32,
    pub warn_fired: bool,
}

/// The fields of a preset that a create or update request carries.
pub struct PresetRequest {
    pub name: String,
    pub desc: Option<String>,
    pub preset_type: PresetType,
}

} // verus!
