//! The tick engine: commands on the slots, one tick of all slots, the
//! warning sounds it asks for, and the snapshot it publishes.
//!
//! The engine is a state machine. The shell feeds it commands and clock
//! readings (nanoseconds on a monotonic clock) and performs the actions
//! that a tick returns, in order.

use vstd::prelude::*;
use crate::models::preset::{SlotStatus, TimerSlotDef};
use crate::timer::timer_state::{sat_sub, SlotEvent, TimerSlotRuntime};
use crate::utils::text::{str_eq, text};

verus! {

/// Nanoseconds in one millisecond.
pub const NANOS_PER_MILLI: u128 = 1_000_000;

/// The pause between two plays of a continuous warning, in nanoseconds.
pub const CONTINUOUS_REPLAY_NANOS: u128 = 1_000_000_000;

/// A request to the engine.
pub enum EngineCommand {
    StartSlot(usize),
    PauseSlot(usize),
    ResetSlot(usize),
    ToggleSlot(usize),
    StartSlotsBatch(Vec<usize>),
    ResetAll,
    LoadSlots(Vec<TimerSlotDef>),
    UpdateWarnConfig(WarnConfig),
}

/// How warnings sound: whether at all, which sound, and how often
/// (`"1"`, `"2"`, `"3"` or `"continuous"`).
pub struct WarnConfig {
    pub sound_enabled: bool,
    pub sound_key: String,
    pub sound_repeat: String,
}

/// What the shell shows of one slot.
pub struct SlotSnapshot {
    pub id: String,
    pub name: String,
    pub elapsed_ms: u64,
    pub remaining_ms: u64,
    pub target_ms: u64,
    pub status: String,
    pub loop_count: u32,
}

/// What the shell shows of all slots after a tick.
pub struct TickPayload {
    pub slots: Vec<SlotSnapshot>,
    pub global_status: String,
}

/// Something the shell does on the engine's behalf during a tick.
pub enum EngineAction {
    /// Announce that slot `slot_index` entered its warning.
    EmitWarn { slot_index: usize, slot_id: String },
    /// Play the named alert sound once.
    PlaySound(String),
    /// Read the clock: the continuous warning starts sounding now
    /// (hand the reading to `stamp_warning` once the tick's actions are done).
    StampWarning,
    /// Announce that slot `slot_index` reached its target.
    EmitTrigger { slot_index: usize, slot_id: String, loop_count: u32, auto_continue: bool },
}

/// Where the continuous warning sound stands.
#[derive(Debug, Clone, Copy, PartialEq, Eq, Structural)]
pub enum WarnMark {
    /// It is not sounding.
    Silent,
    /// A warning has just started it; the shell stamps the time it played.
    Pending,
    /// It last played at this clock reading.
    PlayedAt(u128),
}

/// The actions of one tick, in order, and the snapshot to publish.
pub struct TickOutcome {
    pub actions: Vec<EngineAction>,
    pub payload: TickPayload,
}

/// The engine's state between ticks.
pub struct EngineState {
    pub slots: Vec<TimerSlotRuntime>,
    pub warn_config: Option<WarnConfig>,
    /// When the continuous warning last played, if it is sounding.
    pub continuous_warn_last_play: WarnMark,
    /// The clock reading of the last tick.
    pub last_tick: u128,
}

// ---------------------------------------------------------------------
// Commands

/// A slot that a batch start may pick.
pub open spec fn startable(s: TimerSlotRuntime) -> bool {
    s.status == SlotStatus::Idle || s.status == SlotStatus::Triggered
}

/// The slot after a toggle: idle or triggered starts, running restarts
/// from zero, paused resumes.
pub open spec fn toggled(s: TimerSlotRuntime) -> TimerSlotRuntime {
    match s.status {
        SlotStatus::Idle | SlotStatus::Triggered => s.started(),
        SlotStatus::Running => s.restarted(),
        SlotStatus::Paused => s.started(),
        SlotStatus::Warning => s,
    }
}

/// The first of `indices` that names a startable slot.
pub open spec fn first_startable(slots: Seq<TimerSlotRuntime>, indices: Seq<usize>) -> Option<
    usize,
>
    decreases indices.len(),
{
    if indices.len() == 0 {
        None
    } else if indices[0] < slots.len() && startable(slots[indices[0] as int]) {
        Some(indices[0])
    } else {
        first_startable(slots, indices.drop_first())
    }
}

/// `slots` with the slot at `idx` replaced by `f` of it, if `idx` is in range.
pub open spec fn update_at(
    slots: Seq<TimerSlotRuntime>,
    idx: usize,
    f: spec_fn(TimerSlotRuntime) -> TimerSlotRuntime,
) -> Seq<TimerSlotRuntime> {
    if idx < slots.len() {
        slots.update(idx as int, f(slots[idx as int]))
    } else {
        slots
    }
}

/// The slots made from a list of definitions.
pub open spec fn loaded(defs: Seq<TimerSlotDef>) -> Seq<TimerSlotRuntime> {
    Seq::new(defs.len(), |i: int| TimerSlotRuntime::spec_new(i as usize, defs[i]))
}

/// The slots after a command.
pub open spec fn slots_after(slots: Seq<TimerSlotRuntime>, cmd: EngineCommand) -> Seq<
    TimerSlotRuntime,
> {
    match cmd {
        EngineCommand::StartSlot(i) => update_at(slots, i, |s: TimerSlotRuntime| s.started()),
        EngineCommand::PauseSlot(i) => update_at(slots, i, |s: TimerSlotRuntime| s.paused()),
        EngineCommand::ResetSlot(i) => update_at(slots, i, |s: TimerSlotRuntime| s.restarted()),
        EngineCommand::ToggleSlot(i) => update_at(slots, i, |s: TimerSlotRuntime| toggled(s)),
        EngineCommand::StartSlotsBatch(indices) => match first_startable(slots, indices@) {
            Some(i) => update_at(slots, i, |s: TimerSlotRuntime| s.started()),
            None => slots,
        },
        EngineCommand::ResetAll => slots.map_values(|s: TimerSlotRuntime| s.reset_state()),
        EngineCommand::LoadSlots(defs) => loaded(defs@),
        EngineCommand::UpdateWarnConfig(_) => slots,
    }
}

/// The warning configuration after a command.
pub open spec fn config_after(cfg: Option<WarnConfig>, cmd: EngineCommand) -> Option<WarnConfig> {
    match cmd {
        EngineCommand::UpdateWarnConfig(c) => Some(c),
        _ => cfg,
    }
}

// ---------------------------------------------------------------------
// Ticks

/// How many times a warning sound plays for a repeat setting.
pub open spec fn repeat_count(repeat: Seq<char>) -> nat {
    if repeat == "2"@ {
        2
    } else if repeat == "3"@ {
        3
    } else {
        1
    }
}

/// Whether the configuration asks for a continuous warning sound.
pub open spec fn is_continuous(cfg: Option<WarnConfig>) -> bool {
    match cfg {
        Some(c) => c.sound_enabled && c.sound_repeat@ == "continuous"@,
        None => false,
    }
}

/// The sounds that accompany one warning.
pub open spec fn warn_sounds(cfg: Option<WarnConfig>) -> Seq<EngineAction> {
    match cfg {
        Some(c) => if c.sound_enabled {
            Seq::new(repeat_count(c.sound_repeat@), |_i: int| EngineAction::PlaySound(c.sound_key))
        } else {
            Seq::empty()
        },
        None => Seq::empty(),
    }
}

/// The actions that one event of a slot's tick asks for; `t` is the slot
/// after the tick. A warning is announced and then sounded as configured;
/// a trigger is announced with the slot's new loop count.
pub open spec fn event_actions(ev: SlotEvent, t: TimerSlotRuntime, cfg: Option<WarnConfig>) -> Seq<
    EngineAction,
> {
    match ev {
        SlotEvent::Warn => seq![EngineAction::EmitWarn { slot_index: t.index, slot_id: t.id }]
            + (if is_continuous(cfg) { seq![EngineAction::StampWarning] } else { Seq::empty() })
            + warn_sounds(cfg),
        SlotEvent::Trigger { auto_continue } => seq![
            EngineAction::EmitTrigger {
                slot_index: t.index,
                slot_id: t.id,
                loop_count: t.loop_count,
                auto_continue,
            },
        ],
    }
}

/// The actions of a list of events, in order.
pub open spec fn events_actions(
    evs: Seq<SlotEvent>,
    t: TimerSlotRuntime,
    cfg: Option<WarnConfig>,
) -> Seq<EngineAction>
    decreases evs.len(),
{
    if evs.len() == 0 {
        Seq::empty()
    } else {
        events_actions(evs.drop_last(), t, cfg) + event_actions(evs.last(), t, cfg)
    }
}

/// The actions of one slot's tick, given the slot before the tick.
pub open spec fn slot_actions(s: TimerSlotRuntime, delta: u128, cfg: Option<WarnConfig>) -> Seq<
    EngineAction,
> {
    events_actions(s.tick_events(delta), s.ticked(delta), cfg)
}

/// The actions of all slots' ticks, slot by slot.
pub open spec fn all_slot_actions(
    slots: Seq<TimerSlotRuntime>,
    delta: u128,
    cfg: Option<WarnConfig>,
) -> Seq<EngineAction>
    decreases slots.len(),
{
    if slots.len() == 0 {
        Seq::empty()
    } else {
        all_slot_actions(slots.drop_last(), delta, cfg) + slot_actions(slots.last(), delta, cfg)
    }
}

/// The continuous-warning mark after one event: a warning with a
/// continuous configuration starts it (the shell stamps the clock reading
/// taken when it plays), a trigger silences it.
pub open spec fn event_mark(ev: SlotEvent, cfg: Option<WarnConfig>, now: u128, mark: WarnMark) -> WarnMark {
    match ev {
        SlotEvent::Warn => if is_continuous(cfg) {
            WarnMark::Pending
        } else {
            mark
        },
        SlotEvent::Trigger { .. } => WarnMark::Silent,
    }
}

/// The continuous-warning mark after a list of events.
pub open spec fn events_mark(evs: Seq<SlotEvent>, cfg: Option<WarnConfig>, now: u128, mark: WarnMark) -> WarnMark
    decreases evs.len(),
{
    if evs.len() == 0 {
        mark
    } else {
        event_mark(evs.last(), cfg, now, events_mark(evs.drop_last(), cfg, now, mark))
    }
}

/// The continuous-warning mark after one slot's tick.
pub open spec fn mark_after_slot(
    s: TimerSlotRuntime,
    delta: u128,
    cfg: Option<WarnConfig>,
    now: u128,
    mark: WarnMark,
) -> WarnMark {
    events_mark(s.tick_events(delta), cfg, now, mark)
}

/// The continuous-warning mark after all slots' ticks.
pub open spec fn mark_after_slots(
    slots: Seq<TimerSlotRuntime>,
    delta: u128,
    cfg: Option<WarnConfig>,
    now: u128,
    mark: WarnMark,
) -> WarnMark
    decreases slots.len(),
{
    if slots.len() == 0 {
        mark
    } else {
        mark_after_slot(
            slots.last(),
            delta,
            cfg,
            now,
            mark_after_slots(slots.drop_last(), delta, cfg, now, mark),
        )
    }
}

/// A slot that is running inside its warning window.
pub open spec fn in_warning(s: TimerSlotRuntime) -> bool {
    s.status == SlotStatus::Running && s.warn_fired && s.elapsed < s.target
}

/// Some slot is running inside its warning window.
pub open spec fn any_in_warning(slots: Seq<TimerSlotRuntime>) -> bool {
    exists|i: int| 0 <= i < slots.len() && in_warning(#[trigger] slots[i])
}

/// Some slot has the given status.
pub open spec fn any_with_status(slots: Seq<TimerSlotRuntime>, st: SlotStatus) -> bool {
    exists|i: int| 0 <= i < slots.len() && (#[trigger] slots[i]).status == st
}

/// Whether the continuous warning replays now: a slot is in its warning,
/// the configuration is continuous, and a second has passed since the mark.
pub open spec fn replays(active: bool, cfg: Option<WarnConfig>, now: u128, mark: WarnMark) -> bool {
    &&& active
    &&& is_continuous(cfg)
    &&& mark matches WarnMark::PlayedAt(t) && sat_sub(now as nat, t as nat) >= CONTINUOUS_REPLAY_NANOS
}

/// The mark after the continuous-warning step.
pub open spec fn final_mark(active: bool, cfg: Option<WarnConfig>, now: u128, mark: WarnMark) -> WarnMark {
    if !active {
        WarnMark::Silent
    } else if replays(active, cfg, now, mark) {
        WarnMark::PlayedAt(now)
    } else {
        mark
    }
}

/// The action of the continuous-warning step.
pub open spec fn replay_actions(active: bool, cfg: Option<WarnConfig>, now: u128, mark: WarnMark) -> Seq<EngineAction> {
    if replays(active, cfg, now, mark) {
        seq![EngineAction::PlaySound(cfg.unwrap().sound_key)]
    } else {
        Seq::empty()
    }
}

// ---------------------------------------------------------------------
// Snapshots

/// The time left before the slot's target.
pub open spec fn remaining_nanos(s: TimerSlotRuntime) -> nat {
    sat_sub(s.target as nat, s.elapsed as nat)
}

/// The length of the current phase: the loop interval once the slot has
/// looped, the first target before.
pub open spec fn phase_target_nanos(s: TimerSlotRuntime) -> nat {
    if s.loop_count > 0 && s.loop_interval > 0 {
        s.loop_interval as nat
    } else {
        s.initial_target as nat
    }
}

/// The time run in the current phase.
pub open spec fn phase_elapsed_nanos(s: TimerSlotRuntime) -> nat {
    sat_sub(phase_target_nanos(s), remaining_nanos(s))
}

/// The status label of a slot: `warning` for a running slot past its
/// warning point, else the status in lower case.
pub open spec fn status_label(s: TimerSlotRuntime) -> Seq<char> {
    if s.status == SlotStatus::Running && s.warn_fired {
        "warning"@
    } else {
        match s.status {
            SlotStatus::Idle => "idle"@,
            SlotStatus::Running => "running"@,
            SlotStatus::Paused => "paused"@,
            SlotStatus::Warning => "warning"@,
            SlotStatus::Triggered => "triggered"@,
        }
    }
}

/// `snap` shows slot `s`; the millisecond counts are cut to 64 bits.
pub open spec fn shows(snap: SlotSnapshot, s: TimerSlotRuntime) -> bool {
    &&& snap.id == s.id
    &&& snap.name == s.name
    &&& snap.elapsed_ms == (phase_elapsed_nanos(s) / 1_000_000) as u64
    &&& snap.remaining_ms == (remaining_nanos(s) / 1_000_000) as u64
    &&& snap.target_ms == (phase_target_nanos(s) / 1_000_000) as u64
    &&& snap.status@ == status_label(s)
    &&& snap.loop_count == s.loop_count
}

/// The overall status: running if any slot runs, else paused if any slot
/// is paused, else idle.
pub open spec fn global_label(slots: Seq<TimerSlotRuntime>) -> Seq<char> {
    if any_with_status(slots, SlotStatus::Running) {
        "running"@
    } else if any_with_status(slots, SlotStatus::Paused) {
        "paused"@
    } else {
        "idle"@
    }
}

/// `p` shows the slots.
pub open spec fn payload_shows(p: TickPayload, slots: Seq<TimerSlotRuntime>) -> bool {
    &&& p.slots@.len() == slots.len()
    &&& forall|i: int| 0 <= i < slots.len() ==> shows(#[trigger] p.slots@[i], slots[i])
    &&& p.global_status@ == global_label(slots)
}

/// The snapshot of one slot.
pub fn slot_snapshot(s: &TimerSlotRuntime) -> (snap: SlotSnapshot)
    ensures
        shows(snap, *s),
{
    let remaining = s.target.saturating_sub(s.elapsed);
    let phase_target = if s.loop_count > 0 && s.loop_interval > 0 {
        s.loop_interval
    } else {
        s.initial_target
    };
    let phase_elapsed = phase_target.saturating_sub(remaining);
    let status = if s.status == SlotStatus::Running && s.warn_fired {
        text("warning")
    } else {
        match s.status {
            SlotStatus::Idle => text("idle"),
            SlotStatus::Running => text("running"),
            SlotStatus::Paused => text("paused"),
            SlotStatus::Warning => text("warning"),
            SlotStatus::Triggered => text("triggered"),
        }
    };
    SlotSnapshot {
        id: s.id.clone(),
        name: s.name.clone(),
        elapsed_ms: (phase_elapsed / NANOS_PER_MILLI) as u64,
        remaining_ms: (remaining / NANOS_PER_MILLI) as u64,
        target_ms: (phase_target / NANOS_PER_MILLI) as u64,
        status,
        loop_count: s.loop_count,
    }
}

/// The snapshot of all slots.
pub fn build_payload(slots: &Vec<TimerSlotRuntime>) -> (p: TickPayload)
    ensures
        payload_shows(p, slots@),
{
    let mut snaps: Vec<SlotSnapshot> = Vec::new();
    let mut has_running = false;
    let mut has_paused = false;
    let n = slots.len();
    let mut i: usize = 0;
    while i < n
        invariant
            n == slots@.len(),
            i <= n,
            snaps@.len() == i,
            forall|j: int| 0 <= j < i ==> shows(#[trigger] snaps@[j], slots@[j]),
            has_running <==> exists|j: int|
                0 <= j < i && (#[trigger] slots@[j]).status == SlotStatus::Running,
            has_paused <==> exists|j: int|
                0 <= j < i && (#[trigger] slots@[j]).status == SlotStatus::Paused,
        decreases n - i,
    {
        let s = &slots[i];
        snaps.push(slot_snapshot(s));
        if s.status == SlotStatus::Running {
            has_running = true;
        }
        if s.status == SlotStatus::Paused {
            has_paused = true;
        }
        i = i + 1;
    }
    let global_status = if has_running {
        text("running")
    } else if has_paused {
        text("paused")
    } else {
        text("idle")
    };
    TickPayload { slots: snaps, global_status }
}

impl TickPayload {
    /// The snapshot before any tick: no slots, idle.
    pub fn idle() -> (p: TickPayload)
        ensures
            p.slots@.len() == 0,
            p.global_status@ == "idle"@,
    {
        TickPayload { slots: Vec::new(), global_status: text("idle") }
    }
}

} // verus!

verus! {

/// Every slot keeps the slot invariant.
pub open spec fn all_wf(slots: Seq<TimerSlotRuntime>) -> bool {
    forall|i: int| 0 <= i < slots.len() ==> (#[trigger] slots[i]).wf()
}

/// The first of `indices` that names a startable slot.
pub fn find_first_startable(slots: &Vec<TimerSlotRuntime>, indices: &Vec<usize>) -> (r: Option<usize>)
    ensures
        r == first_startable(slots@, indices@),
{
    let n = indices.len();
    let mut j: usize = 0;
    assert(indices@.skip(0) =~= indices@);
    while j < n
        invariant
            n == indices@.len(),
            j <= n,
            first_startable(slots@, indices@) == first_startable(slots@, indices@.skip(j as int)),
        decreases n - j,
    {
        let idx = indices[j];
        assert(indices@.skip(j as int)[0] == idx);
        assert(indices@.skip(j as int).drop_first() =~= indices@.skip(j + 1));
        if idx < slots.len() && (slots[idx].status == SlotStatus::Idle || slots[idx].status
            == SlotStatus::Triggered) {
            return Some(idx);
        }
        j = j + 1;
    }
    assert(indices@.skip(n as int).len() == 0);
    None
}

/// How many times a warning sound plays for a repeat setting.
pub fn repeat_times(repeat: &String) -> (n: usize)
    ensures
        n == repeat_count(repeat@),
{
    if str_eq(repeat.as_str(), "2") {
        2
    } else if str_eq(repeat.as_str(), "3") {
        3
    } else {
        1
    }
}

impl EngineState {
    /// An engine with no slots and no warning configuration, started at `now`.
    pub fn new(now: u128) -> (e: EngineState)
        ensures
            e.slots@.len() == 0,
            e.warn_config is None,
            e.continuous_warn_last_play == WarnMark::Silent,
            e.last_tick == now,
    {
        EngineState {
            slots: Vec::new(),
            warn_config: None,
            continuous_warn_last_play: WarnMark::Silent,
            last_tick: now,
        }
    }

    fn update_slot(&mut self, i: usize, op: u8)
        requires
            op < 4,
        ensures
            final(self).slots@ == update_at(
                old(self).slots@,
                i,
                |s: TimerSlotRuntime|
                    if op == 0 {
                        s.started()
                    } else if op == 1 {
                        s.paused()
                    } else if op == 2 {
                        s.restarted()
                    } else {
                        toggled(s)
                    },
            ),
            final(self).warn_config == old(self).warn_config,
            final(self).continuous_warn_last_play == old(self).continuous_warn_last_play,
            final(self).last_tick == old(self).last_tick,
    {
        if i < self.slots.len() {
            let mut s = self.slots[i].clone();
            if op == 0 {
                s.start();
            } else if op == 1 {
                s.pause();
            } else if op == 2 {
                s.restart();
            } else {
                match s.status {
                    SlotStatus::Idle | SlotStatus::Triggered => s.start(),
                    SlotStatus::Running => s.restart(),
                    SlotStatus::Paused => s.start(),
                    SlotStatus::Warning => {},
                }
            }
            self.slots.set(i, s);
        }
    }

    /// Carries out one command.
    pub fn apply_command(&mut self, cmd: EngineCommand)
        ensures
            final(self).slots@ == slots_after(old(self).slots@, cmd),
            final(self).warn_config == config_after(old(self).warn_config, cmd),
            final(self).continuous_warn_last_play == old(self).continuous_warn_last_play,
            final(self).last_tick == old(self).last_tick,
            all_wf(old(self).slots@) ==> all_wf(final(self).slots@),
    {
        proof {
            if all_wf(self.slots@) {
                lemma_commands_keep_wf(self.slots@, cmd);
            }
        }
        match cmd {
            EngineCommand::StartSlot(i) => {
                self.update_slot(i, 0);
            },
            EngineCommand::PauseSlot(i) => {
                self.update_slot(i, 1);
            },
            EngineCommand::ResetSlot(i) => {
                self.update_slot(i, 2);
            },
            EngineCommand::ToggleSlot(i) => {
                self.update_slot(i, 3);
            },
            EngineCommand::StartSlotsBatch(indices) => {
                let found = find_first_startable(&self.slots, &indices);
                if let Some(i) = found {
                    self.update_slot(i, 0);
                }
            },
            EngineCommand::ResetAll => {
                let ghost s0 = self.slots@;
                let ghost cfg0 = self.warn_config;
                let ghost mark0 = self.continuous_warn_last_play;
                let ghost last0 = self.last_tick;
                let n = self.slots.len();
                let mut i: usize = 0;
                while i < n
                    invariant
                        n == s0.len(),
                        i <= n,
                        self.slots@.len() == n,
                        forall|j: int| 0 <= j < i ==> self.slots@[j] == s0[j].reset_state(),
                        forall|j: int| i <= j < n ==> self.slots@[j] == s0[j],
                        self.warn_config == cfg0,
                        self.continuous_warn_last_play == mark0,
                        self.last_tick == last0,
                    decreases n - i,
                {
                    let mut s = self.slots[i].clone();
                    s.reset();
                    self.slots.set(i, s);
                    i = i + 1;
                }
                assert(self.slots@ =~= s0.map_values(|s: TimerSlotRuntime| s.reset_state()));
            },
            EngineCommand::LoadSlots(defs) => {
                let mut slots: Vec<TimerSlotRuntime> = Vec::new();
                let n = defs.len();
                let mut i: usize = 0;
                while i < n
                    invariant
                        n == defs@.len(),
                        i <= n,
                        slots@.len() == i,
                        forall|j: int|
                            0 <= j < i ==> #[trigger] slots@[j] == TimerSlotRuntime::spec_new(
                                j as usize,
                                defs@[j],
                            ),
                    decreases n - i,
                {
                    let def = defs[i].clone();
                    slots.push(TimerSlotRuntime::new(i, def));
                    i = i + 1;
                }
                assert(slots@ =~= loaded(defs@));
                self.slots = slots;
            },
            EngineCommand::UpdateWarnConfig(c) => {
                self.warn_config = Some(c);
            },
        }
    }
}

} // verus!

verus! {

impl EngineState {
    /// The time since the last tick (zero if the clock reading is older).
    pub open spec fn delta_at(self, now: u128) -> u128 {
        sat_sub(now as nat, self.last_tick as nat) as u128
    }

    /// Every slot can tick by the time since the last tick.
    pub open spec fn advance_fits(self, now: u128) -> bool {
        forall|i: int|
            0 <= i < self.slots@.len() ==> (#[trigger] self.slots@[i]).tick_fits(
                self.delta_at(now),
            )
    }

    /// The slots after a tick at `now`.
    pub open spec fn ticked_slots(self, now: u128) -> Seq<TimerSlotRuntime> {
        Seq::new(self.slots@.len(), |i: int| self.slots@[i].ticked(self.delta_at(now)))
    }

    /// The continuous-warning mark once every slot has ticked at `now`.
    pub open spec fn mark_after_events(self, now: u128) -> WarnMark {
        mark_after_slots(
            self.slots@,
            self.delta_at(now),
            self.warn_config,
            now,
            self.continuous_warn_last_play,
        )
    }

    /// The actions of a tick at `now`: each slot's announcements and sounds,
    /// then the replay of a continuous warning.
    pub open spec fn tick_actions(self, now: u128) -> Seq<EngineAction> {
        all_slot_actions(self.slots@, self.delta_at(now), self.warn_config) + replay_actions(
            any_in_warning(self.ticked_slots(now)),
            self.warn_config,
            now,
            self.mark_after_events(now),
        )
    }

    /// The continuous-warning mark after a tick at `now`.
    pub open spec fn mark_after_tick(self, now: u128) -> WarnMark {
        final_mark(
            any_in_warning(self.ticked_slots(now)),
            self.warn_config,
            now,
            self.mark_after_events(now),
        )
    }

    /// Whether every slot can tick at `now` within the integer ranges.
    pub fn can_advance(&self, now: u128) -> (b: bool)
        ensures
            b == self.advance_fits(now),
    {
        let delta = now.saturating_sub(self.last_tick);
        let n = self.slots.len();
        let mut i: usize = 0;
        while i < n
            invariant
                n == self.slots@.len(),
                i <= n,
                delta == self.delta_at(now),
                forall|j: int| 0 <= j < i ==> (#[trigger] self.slots@[j]).tick_fits(delta),
            decreases n - i,
        {
            if !self.slots[i].can_tick(delta) {
                return false;
            }
            i = i + 1;
        }
        true
    }

    /// One tick at clock reading `now`: every slot advances by the time
    /// since the last tick, and the outcome lists what to announce and
    /// play, and the snapshot to publish.
    pub fn advance(&mut self, now: u128) -> (out: TickOutcome)
        requires
            old(self).advance_fits(now),
        ensures
            final(self).slots@ == old(self).ticked_slots(now),
            out.actions@ == old(self).tick_actions(now),
            final(self).continuous_warn_last_play == old(self).mark_after_tick(now),
            final(self).warn_config == old(self).warn_config,
            final(self).last_tick == now,
            payload_shows(out.payload, final(self).slots@),
            all_wf(old(self).slots@) ==> all_wf(final(self).slots@),
    {
        let ghost s0 = *self;
        proof {
            if all_wf(self.slots@) {
                lemma_tick_keeps_wf(*self, now);
            }
        }
        let delta = now.saturating_sub(self.last_tick);
        let n = self.slots.len();
        let mut new_slots: Vec<TimerSlotRuntime> = Vec::new();
        let mut actions: Vec<EngineAction> = Vec::new();
        let mut mark = self.continuous_warn_last_play;
        let mut active = false;
        let mut i: usize = 0;
        while i < n
            invariant
                *self == s0,
                n == s0.slots@.len(),
                i <= n,
                delta == s0.delta_at(now),
                s0.advance_fits(now),
                new_slots@ =~= s0.ticked_slots(now).take(i as int),
                actions@ == all_slot_actions(s0.slots@.take(i as int), delta, s0.warn_config),
                mark == mark_after_slots(
                    s0.slots@.take(i as int),
                    delta,
                    s0.warn_config,
                    now,
                    s0.continuous_warn_last_play,
                ),
                active == any_in_warning(new_slots@),
            decreases n - i,
        {
            let mut s = self.slots[i].clone();
            assert(s.tick_fits(delta));
            let events = s.tick(delta);
            let ghost base_actions = actions@;
            let ghost base_mark = mark;
            let m = events.len();
            let mut k: usize = 0;
            while k < m
                invariant
                    *self == s0,
                    m == events@.len(),
                    k <= m,
                    actions@ == base_actions + events_actions(
                        events@.take(k as int),
                        s,
                        s0.warn_config,
                    ),
                    mark == events_mark(events@.take(k as int), s0.warn_config, now, base_mark),
                decreases m - k,
            {
                assert(events@.take(k + 1).drop_last() =~= events@.take(k as int));
                let ghost before = actions@;
                match &events[k] {
                    SlotEvent::Warn => {
                        actions.push(EngineAction::EmitWarn { slot_index: s.index, slot_id: s.id.clone() });
                        match &self.warn_config {
                            Some(c) => {
                                if c.sound_enabled {
                                    let count = repeat_times(&c.sound_repeat);
                                    if str_eq(c.sound_repeat.as_str(), "continuous") {
                                        mark = WarnMark::Pending;
                                        actions.push(EngineAction::StampWarning);
                                    }
                                    let ghost mid = actions@;
                                    let mut r: usize = 0;
                                    while r < count
                                        invariant
                                            *self == s0,
                                            s0.warn_config == Some(*c),
                                            r <= count,
                                            count == repeat_count(c.sound_repeat@),
                                            actions@ =~= mid + Seq::new(
                                                r as nat,
                                                |_i: int| EngineAction::PlaySound(c.sound_key),
                                            ),
                                        decreases count - r,
                                    {
                                        actions.push(EngineAction::PlaySound(c.sound_key.clone()));
                                        r = r + 1;
                                    }
                                }
                            },
                            None => {},
                        }
                        assert(actions@ =~= before + event_actions(events@[k as int], s, s0.warn_config));
                    },
                    SlotEvent::Trigger { auto_continue } => {
                        actions.push(
                            EngineAction::EmitTrigger {
                                slot_index: s.index,
                                slot_id: s.id.clone(),
                                loop_count: s.loop_count,
                                auto_continue: *auto_continue,
                            },
                        );
                        mark = WarnMark::Silent;
                        assert(actions@ =~= before + event_actions(events@[k as int], s, s0.warn_config));
                    },
                }
                k = k + 1;
            }
            assert(events@.take(m as int) =~= events@);
            assert(s0.slots@.take(i + 1).drop_last() =~= s0.slots@.take(i as int));
            assert(s0.slots@.take(i + 1).last() == s0.slots@[i as int]);
            if s.status == SlotStatus::Running && s.warn_fired && s.elapsed < s.target {
                active = true;
            }
            let ghost prev = new_slots@;
            new_slots.push(s);
            proof {
                assert(new_slots@[i as int] == s);
                assert(forall|j: int| 0 <= j < i ==> new_slots@[j] == prev[j]);
                if any_in_warning(new_slots@) && !in_warning(s) {
                    let j = choose|j: int| 0 <= j < new_slots@.len() && in_warning(#[trigger] new_slots@[j]);
                    assert(in_warning(prev[j]));
                }
                if any_in_warning(prev) {
                    let j = choose|j: int| 0 <= j < prev.len() && in_warning(#[trigger] prev[j]);
                    assert(in_warning(new_slots@[j]));
                }
            }
            assert(new_slots@ =~= s0.ticked_slots(now).take(i + 1));
            i = i + 1;
        }
        assert(s0.slots@.take(n as int) =~= s0.slots@);
        assert(new_slots@ =~= s0.ticked_slots(now));
        if active {
            match &self.warn_config {
                Some(c) => {
                    if c.sound_enabled && str_eq(c.sound_repeat.as_str(), "continuous") {
                        match mark {
                            WarnMark::PlayedAt(last) => {
                                if now.saturating_sub(last) >= CONTINUOUS_REPLAY_NANOS {
                                    actions.push(EngineAction::PlaySound(c.sound_key.clone()));
                                    mark = WarnMark::PlayedAt(now);
                                }
                            },
                            _ => {},
                        }
                    }
                },
                None => {},
            }
        } else {
            mark = WarnMark::Silent;
        }
        let payload = build_payload(&new_slots);
        self.slots = new_slots;
        self.continuous_warn_last_play = mark;
        self.last_tick = now;
        TickOutcome { actions, payload }
    }

    /// Records when a just-started continuous warning played: the clock
    /// reading taken at the tick's last `StampWarning` action. Nothing
    /// changes unless a stamp is pending.
    pub fn stamp_warning(&mut self, reading: u128)
        ensures
            final(self).continuous_warn_last_play == if old(self).continuous_warn_last_play
                == WarnMark::Pending {
                WarnMark::PlayedAt(reading)
            } else {
                old(self).continuous_warn_last_play
            },
            final(self).slots == old(self).slots,
            final(self).warn_config == old(self).warn_config,
            final(self).last_tick == old(self).last_tick,
    {
        if self.continuous_warn_last_play == WarnMark::Pending {
            self.continuous_warn_last_play = WarnMark::PlayedAt(reading);
        }
    }
}

} // verus!

verus! {

use crate::timer::timer_state::lemma_operations_keep_wf;

/// Every command keeps the slot invariant of every slot.
pub proof fn lemma_commands_keep_wf(slots: Seq<TimerSlotRuntime>, cmd: EngineCommand)
    requires
        all_wf(slots),
    ensures
        all_wf(slots_after(slots, cmd)),
{
    let r = slots_after(slots, cmd);
    assert forall|j: int| 0 <= j < r.len() implies (#[trigger] r[j]).wf() by {
        match cmd {
            EngineCommand::LoadSlots(defs) => {
                crate::timer::timer_state::lemma_new_is_wf(j as usize, defs@[j]);
            },
            _ => {
                assert(slots[j].wf());
                lemma_operations_keep_wf(slots[j], 0);
            },
        }
    }
}

/// A tick keeps the slot invariant of every slot.
pub proof fn lemma_tick_keeps_wf(e: EngineState, now: u128)
    requires
        all_wf(e.slots@),
        e.advance_fits(now),
    ensures
        all_wf(e.ticked_slots(now)),
{
    let r = e.ticked_slots(now);
    assert forall|j: int| 0 <= j < r.len() implies (#[trigger] r[j]).wf() by {
        assert(e.slots@[j].wf());
        assert(e.slots@[j].tick_fits(e.delta_at(now)));
        lemma_operations_keep_wf(e.slots@[j], e.delta_at(now));
    }
}

/// In a well-formed slot the time left never exceeds the current phase, so
/// the phase's elapsed and remaining times add up to the phase's length.
pub proof fn lemma_phase_progress(s: TimerSlotRuntime)
    requires
        s.wf(),
    ensures
        remaining_nanos(s) <= phase_target_nanos(s),
        phase_elapsed_nanos(s) + remaining_nanos(s) == phase_target_nanos(s),
{
}

/// A command aimed at one slot leaves every other slot as it was.
pub proof fn lemma_slot_commands_are_independent(slots: Seq<TimerSlotRuntime>, cmd: EngineCommand, j: int)
    requires
        cmd is StartSlot || cmd is PauseSlot || cmd is ResetSlot || cmd is ToggleSlot,
        0 <= j < slots.len(),
        match cmd {
            EngineCommand::StartSlot(i) => i != j,
            EngineCommand::PauseSlot(i) => i != j,
            EngineCommand::ResetSlot(i) => i != j,
            EngineCommand::ToggleSlot(i) => i != j,
            _ => true,
        },
    ensures
        slots_after(slots, cmd).len() == slots.len(),
        slots_after(slots, cmd)[j] == slots[j],
{
}

/// What a batch start picks is one of the listed slots, in range, idle or
/// triggered.
pub proof fn lemma_first_startable_is_startable(slots: Seq<TimerSlotRuntime>, indices: Seq<usize>)
    ensures
        first_startable(slots, indices) matches Some(i) ==> {
            &&& i < slots.len()
            &&& startable(slots[i as int])
            &&& indices.contains(i)
        },
    decreases indices.len(),
{
    lemma_batch_picks_first_idle(slots, indices);
    if indices.len() > 0 {
        lemma_first_startable_is_startable(slots, indices.drop_first());
        if !(indices[0] < slots.len() && startable(slots[indices[0] as int])) {
            if let Some(i) = first_startable(slots, indices.drop_first()) {
                let k = choose|k: int| 0 <= k < indices.drop_first().len() && indices.drop_first()[k] == i;
                assert(indices[k + 1] == i);
            }
        } else {
            assert(indices[0] == indices[0]);
        }
    }
}

/// A shared hotkey never resets: a batch start changes at most one slot,
/// which was idle or triggered and now runs from zero; running and paused
/// slots are left alone.
pub proof fn lemma_batch_start_never_resets(slots: Seq<TimerSlotRuntime>, indices: Vec<usize>, j: int)
    requires
        0 <= j < slots.len(),
    ensures
        ({
            let r = slots_after(slots, EngineCommand::StartSlotsBatch(indices));
            &&& r.len() == slots.len()
            &&& (slots[j].status == SlotStatus::Running || slots[j].status == SlotStatus::Paused)
                ==> r[j] == slots[j]
            &&& r[j] != slots[j] ==> {
                &&& first_startable(slots, indices@) == Some(j as usize)
                &&& startable(slots[j])
                &&& r[j].status == SlotStatus::Running
                &&& r[j].elapsed == 0
            }
        }),
{
    lemma_first_startable_is_startable(slots, indices@);
}

/// After a reset of all slots every slot is idle at zero, aimed at its
/// first target, and the overall status is idle.
pub proof fn lemma_reset_all_is_idle(slots: Seq<TimerSlotRuntime>)
    ensures
        ({
            let r = slots_after(slots, EngineCommand::ResetAll);
            &&& r.len() == slots.len()
            &&& forall|j: int|
                0 <= j < r.len() ==> (#[trigger] r[j]).status == SlotStatus::Idle && r[j].elapsed
                    == 0 && r[j].target == r[j].initial_target && r[j].loop_count == 0
            &&& global_label(r) == "idle"@
        }),
{
    let r = slots_after(slots, EngineCommand::ResetAll);
    assert(forall|j: int| 0 <= j < r.len() ==> (#[trigger] r[j]).status == SlotStatus::Idle);
    assert(!any_with_status(r, SlotStatus::Running));
    assert(!any_with_status(r, SlotStatus::Paused));
}

/// What each command aimed at one slot does to that slot, field by field.
/// A start resumes a paused slot exactly as it stood and runs an idle or
/// triggered slot from zero; a pause stops a running slot where it stands;
/// a reset runs the slot from zero towards its first target. A toggle
/// starts an idle or triggered slot, restarts a running one, and resumes a
/// paused one just as a start does, keeping the time already counted.
pub proof fn lemma_slot_command_effects(slots: Seq<TimerSlotRuntime>, i: usize)
    requires
        i < slots.len(),
    ensures
        ({
            let s = slots[i as int];
            let started = slots_after(slots, EngineCommand::StartSlot(i));
            let paused = slots_after(slots, EngineCommand::PauseSlot(i));
            let reset = slots_after(slots, EngineCommand::ResetSlot(i));
            let toggled = slots_after(slots, EngineCommand::ToggleSlot(i));
            let from_zero = (TimerSlotRuntime {
                status: SlotStatus::Running,
                elapsed: 0,
                target: s.initial_target,
                loop_count: 0,
                warn_fired: false,
                ..s
            });
            &&& started.len() == slots.len() && paused.len() == slots.len()
            &&& reset.len() == slots.len() && toggled.len() == slots.len()
            &&& s.status == SlotStatus::Paused ==> {
                &&& started[i as int] == (TimerSlotRuntime { status: SlotStatus::Running, ..s })
                &&& toggled[i as int] == (TimerSlotRuntime { status: SlotStatus::Running, ..s })
                &&& toggled[i as int].elapsed == s.elapsed
                &&& toggled[i as int].target == s.target
                &&& toggled[i as int].loop_count == s.loop_count
                &&& toggled[i as int].warn_fired == s.warn_fired
            }
            &&& (s.status == SlotStatus::Idle || s.status == SlotStatus::Triggered) ==> {
                &&& started[i as int] == (TimerSlotRuntime {
                    status: SlotStatus::Running,
                    elapsed: 0,
                    warn_fired: false,
                    ..s
                })
                &&& toggled[i as int] == started[i as int]
            }
            &&& (s.status == SlotStatus::Running || s.status == SlotStatus::Warning)
                ==> started[i as int] == s
            &&& s.status == SlotStatus::Running ==> {
                &&& paused[i as int] == (TimerSlotRuntime { status: SlotStatus::Paused, ..s })
                &&& toggled[i as int] == from_zero
            }
            &&& s.status != SlotStatus::Running ==> paused[i as int] == s
            &&& s.status == SlotStatus::Warning ==> toggled[i as int] == s
            &&& reset[i as int] == from_zero
        }),
{
}

/// A batch start picks the first listed slot that is in range and idle or
/// triggered: every listed slot before it is out of range, running, paused
/// or warning; when none qualifies it picks nothing.
pub proof fn lemma_batch_picks_first_idle(slots: Seq<TimerSlotRuntime>, indices: Seq<usize>)
    ensures
        match first_startable(slots, indices) {
            Some(i) => exists|p: int|
                0 <= p < indices.len() && indices[p] == i && i < slots.len() && ((#[trigger] slots[
                i as int]).status == SlotStatus::Idle || slots[i as int].status
                == SlotStatus::Triggered) && forall|q: int|
                0 <= q < p ==> !((#[trigger] indices[q]) < slots.len() && (slots[indices[q] as int].status
                    == SlotStatus::Idle || slots[indices[q] as int].status == SlotStatus::Triggered)),
            None => forall|q: int|
                0 <= q < indices.len() ==> !((#[trigger] indices[q]) < slots.len() && (slots[
                indices[q] as int].status == SlotStatus::Idle || slots[indices[q] as int].status
                    == SlotStatus::Triggered)),
        },
    decreases indices.len(),
{
    if indices.len() > 0 {
        let rest = indices.drop_first();
        lemma_batch_picks_first_idle(slots, rest);
        assert forall|q: int| 0 < q < indices.len() implies indices[q] == rest[q - 1] by {}
        if !(indices[0] < slots.len() && startable(slots[indices[0] as int])) {
            if let Some(i) = first_startable(slots, rest) {
                let p = choose|p: int|
                    0 <= p < rest.len() && rest[p] == i && i < slots.len() && ((#[trigger] slots[
                    i as int]).status == SlotStatus::Idle || slots[i as int].status
                    == SlotStatus::Triggered) && forall|q: int|
                    0 <= q < p ==> !((#[trigger] rest[q]) < slots.len() && (slots[rest[q] as int].status
                        == SlotStatus::Idle || slots[rest[q] as int].status == SlotStatus::Triggered));
                assert(indices[p + 1] == i);
                assert forall|q: int| 0 <= q < p + 1 implies !((#[trigger] indices[q]) < slots.len() && (
                slots[indices[q] as int].status == SlotStatus::Idle || slots[indices[q] as int].status
                    == SlotStatus::Triggered)) by {
                    if q > 0 {
                        assert(indices[q] == rest[q - 1]);
                    }
                }
            }
        } else {
            assert(slots[indices[0] as int] == slots[indices[0] as int]);
        }
    }
}

/// Loading definitions gives one idle slot per definition, in order, each
/// numbered by its place, named and identified as its definition, at zero,
/// with its first target and loop interval taken from the definition's
/// seconds and its warning not yet given.
pub proof fn lemma_loaded_slots(slots: Seq<TimerSlotRuntime>, defs: Vec<TimerSlotDef>)
    requires
        defs@.len() <= usize::MAX,
    ensures
        ({
            let r = slots_after(slots, EngineCommand::LoadSlots(defs));
            &&& r.len() == defs@.len()
            &&& forall|j: int|
                0 <= j < r.len() ==> {
                    &&& (#[trigger] r[j]).index == j
                    &&& r[j].id == defs@[j].id
                    &&& r[j].name == defs@[j].name
                    &&& r[j].status == SlotStatus::Idle
                    &&& r[j].elapsed == 0
                    &&& r[j].initial_target == defs@[j].first as int * 1_000_000_000
                    &&& r[j].target == r[j].initial_target
                    &&& r[j].loop_interval == defs@[j].loop_interval as int * 1_000_000_000
                    &&& r[j].loop_count == 0
                    &&& r[j].warn_seconds == defs@[j].warn_seconds
                    &&& !r[j].warn_fired
                }
        }),
{
    let r = slots_after(slots, EngineCommand::LoadSlots(defs));
    assert forall|j: int| 0 <= j < r.len() implies (#[trigger] r[j]).initial_target
        == defs@[j].first as int * 1_000_000_000 by {
        assert(defs@[j].first as int * 1_000_000_000 <= u32::MAX as int * 1_000_000_000) by (nonlinear_arith)
            requires defs@[j].first <= u32::MAX;
    }
    assert forall|j: int| 0 <= j < r.len() implies (#[trigger] r[j]).loop_interval
        == defs@[j].loop_interval as int * 1_000_000_000 by {
        assert(defs@[j].loop_interval as int * 1_000_000_000 <= u32::MAX as int * 1_000_000_000) by (nonlinear_arith)
            requires defs@[j].loop_interval <= u32::MAX;
    }
}

/// A warning sounds the configured alert once, or twice or three times for
/// a repeat setting of `2` or `3` (a continuous setting plays it once here
/// and then keeps replaying), and not at all when sound is off or nothing
/// is configured.
pub proof fn lemma_warning_sounds(cfg: Option<WarnConfig>)
    ensures
        match cfg {
            Some(c) => if c.sound_enabled {
                &&& warn_sounds(cfg).len() == (if c.sound_repeat@ == "2"@ {
                    2int
                } else if c.sound_repeat@ == "3"@ {
                    3int
                } else {
                    1int
                })
                &&& forall|k: int|
                    0 <= k < warn_sounds(cfg).len() ==> #[trigger] warn_sounds(cfg)[k]
                        == EngineAction::PlaySound(c.sound_key)
            } else {
                warn_sounds(cfg).len() == 0
            },
            None => warn_sounds(cfg).len() == 0,
        },
{
}

/// What one running slot's tick announces, in order: on entering its
/// warning, the warning of that slot, a request to stamp the clock when
/// the sound is continuous, then the warning's sounds; on reaching its
/// target, the trigger of that slot with its loop count after the tick
/// and whether it loops on. A slot that is not running announces nothing.
pub proof fn lemma_slot_tick_announces(s: TimerSlotRuntime, delta: u128, cfg: Option<WarnConfig>)
    requires
        s.tick_fits(delta),
    ensures
        s.status != SlotStatus::Running ==> slot_actions(s, delta, cfg).len() == 0,
        s.status == SlotStatus::Running ==> ({
            let e = s.elapsed + delta;
            let hit = s.target > 0 && e >= s.target;
            let warn = !s.warn_fired && s.target > 0 && e + (s.warn_seconds as int)
                * 1_000_000_000 >= s.target;
            let continuous = cfg matches Some(c) && c.sound_enabled && c.sound_repeat@
                == "continuous"@;
            let w = seq![EngineAction::EmitWarn { slot_index: s.index, slot_id: s.id }] + (if continuous {
                seq![EngineAction::StampWarning]
            } else {
                Seq::empty()
            }) + warn_sounds(cfg);
            let t = seq![
                EngineAction::EmitTrigger {
                    slot_index: s.index,
                    slot_id: s.id,
                    loop_count: (s.loop_count + 1) as u32,
                    auto_continue: s.loop_interval > 0,
                },
            ];
            slot_actions(s, delta, cfg) == (if warn { w } else { Seq::empty() }) + (if hit {
                t
            } else {
                Seq::empty()
            })
        }),
{
    if s.status == SlotStatus::Running {
        crate::timer::timer_state::lemma_running_tick(s, delta);
        let evs = s.tick_events(delta);
        let tk = s.ticked(delta);
        reveal_with_fuel(events_actions, 3);
        let wv: Seq<SlotEvent> = if s.warns_after(delta) { seq![SlotEvent::Warn] } else { Seq::empty() };
        let tv: Seq<SlotEvent> = if s.triggers_after(delta) {
            seq![SlotEvent::Trigger { auto_continue: s.loop_interval > 0 }]
        } else {
            Seq::empty()
        };
        assert(evs == wv + tv);
        if s.warns_after(delta) && s.triggers_after(delta) {
            assert(evs =~= seq![SlotEvent::Warn, SlotEvent::Trigger { auto_continue: s.loop_interval > 0 }]);
            assert(evs.drop_last() =~= seq![SlotEvent::Warn]);
            assert(evs.drop_last().drop_last() =~= Seq::<SlotEvent>::empty());
        } else if s.warns_after(delta) {
            assert(evs =~= seq![SlotEvent::Warn]);
            assert(evs.drop_last() =~= Seq::<SlotEvent>::empty());
        } else if s.triggers_after(delta) {
            assert(evs =~= seq![SlotEvent::Trigger { auto_continue: s.loop_interval > 0 }]);
            assert(evs.drop_last() =~= Seq::<SlotEvent>::empty());
        } else {
            assert(evs =~= Seq::<SlotEvent>::empty());
        }
        let a = slot_actions(s, delta, cfg);
        assert(a =~= (if s.warns_after(delta) {
            event_actions(SlotEvent::Warn, tk, cfg)
        } else {
            Seq::empty()
        }) + (if s.triggers_after(delta) {
            event_actions(SlotEvent::Trigger { auto_continue: s.loop_interval > 0 }, tk, cfg)
        } else {
            Seq::empty()
        }));
    }
}

/// The continuous warning sound, after a tick's own announcements: while
/// some slot is in its warning and the sound is continuous, it plays again
/// once a whole second has passed since it last played, and the time it
/// played is kept, so it plays at most once a second; when no slot is in
/// its warning any more it falls silent.
pub proof fn lemma_continuous_replay(active: bool, cfg: Option<WarnConfig>, now: u128, mark: WarnMark)
    ensures
        !active ==> final_mark(active, cfg, now, mark) == WarnMark::Silent && replay_actions(
            active,
            cfg,
            now,
            mark,
        ).len() == 0,
        ({
            let due = active && (cfg matches Some(c) && c.sound_enabled && c.sound_repeat@
                == "continuous"@) && (mark matches WarnMark::PlayedAt(t) && now >= t + 1_000_000_000);
            &&& due ==> final_mark(active, cfg, now, mark) == WarnMark::PlayedAt(now)
                && replay_actions(active, cfg, now, mark) == seq![
                EngineAction::PlaySound(cfg.unwrap().sound_key),
            ]
            &&& (active && !due) ==> final_mark(active, cfg, now, mark) == mark && replay_actions(
                active,
                cfg,
                now,
                mark,
            ).len() == 0
        }),
        forall|later: u128|
            now <= later < now + 1_000_000_000 ==> replay_actions(
                active,
                cfg,
                later,
                WarnMark::PlayedAt(now),
            ).len() == 0,
{
}

} // verus!
