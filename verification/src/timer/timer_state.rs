//! The state machine of one timer slot. Durations are nanoseconds.

use vstd::prelude::*;
use crate::models::preset::{SlotStatus, TimerSlotDef};

verus! {

/// Nanoseconds in one second.
pub const NANOS_PER_SEC: u128 = 1_000_000_000;

/// `secs` seconds in nanoseconds.
pub open spec fn secs_to_nanos(secs: u32) -> nat {
    (secs as nat) * 1_000_000_000
}

/// `a - b`, or zero when `b > a`.
pub open spec fn sat_sub(a: nat, b: nat) -> nat {
    if a >= b {
        (a - b) as nat
    } else {
        0
    }
}

/// The runtime state of one slot: where its countdown stands.
pub struct TimerSlotRuntime {
    pub index: usize,
    pub id: String,
    pub name: String,
    pub status: SlotStatus,
    /// Time run in the current phase and before, in nanoseconds.
    pub elapsed: u128,
    /// The first target, in nanoseconds.
    pub initial_target: u128,
    /// The elapsed time at which the slot triggers next.
    pub target: u128,
    /// The interval added after each trigger (zero: the slot stops).
    pub loop_interval: u128,
    pub loop_count: u32,
    pub warn_seconds: u32,
    pub warn_fired: bool,
}

/// What a tick reports about a slot.
pub enum SlotEvent {
    /// The warning window before the target was entered.
    Warn,
    /// The target was reached; with `auto_continue` the slot loops on.
    Trigger { auto_continue: bool },
}

impl TimerSlotRuntime {
    /// The states that the operations of this type keep: the target only
    /// moves away from the first target after a looping trigger, a triggered
    /// slot never loops, an idle slot has not triggered, and a looping
    /// target lies at most one interval ahead.
    pub open spec fn wf(self) -> bool {
        &&& (self.loop_count == 0 || self.loop_interval == 0) ==> self.target
            == self.initial_target
        &&& self.status == SlotStatus::Triggered ==> self.loop_interval == 0
        &&& self.status == SlotStatus::Idle ==> self.loop_count == 0
        &&& (self.loop_count > 0 && self.loop_interval > 0) ==> self.target <= self.elapsed
            + self.loop_interval
    }

    /// The warning point: the target less the warning time, not below zero.
    pub open spec fn warn_at(self) -> nat {
        sat_sub(self.target as nat, secs_to_nanos(self.warn_seconds))
    }

    /// Whether a tick of `delta` on this running slot enters the warning.
    pub open spec fn warns_after(self, delta: u128) -> bool {
        &&& !self.warn_fired
        &&& self.target > 0
        &&& self.elapsed + delta >= self.warn_at()
    }

    /// Whether a tick of `delta` on this running slot reaches the target.
    pub open spec fn triggers_after(self, delta: u128) -> bool {
        self.target > 0 && self.elapsed + delta >= self.target
    }

    /// A tick of `delta` stays within the integer ranges of the fields.
    pub open spec fn tick_fits(self, delta: u128) -> bool {
        self.status == SlotStatus::Running ==> {
            &&& self.elapsed + delta <= u128::MAX
            &&& self.triggers_after(delta) ==> {
                &&& self.loop_count < u32::MAX
                &&& self.loop_interval > 0 ==> self.elapsed + delta + self.loop_interval
                    <= u128::MAX
            }
        }
    }

    /// The slot after a tick of `delta`.
    pub open spec fn ticked(self, delta: u128) -> TimerSlotRuntime {
        if self.status != SlotStatus::Running {
            self
        } else {
            let e = (self.elapsed + delta) as u128;
            let trig = self.triggers_after(delta);
            let looping = self.loop_interval > 0;
            TimerSlotRuntime {
                elapsed: e,
                warn_fired: if trig && looping {
                    false
                } else {
                    self.warn_fired || self.warns_after(delta)
                },
                loop_count: if trig {
                    (self.loop_count + 1) as u32
                } else {
                    self.loop_count
                },
                target: if trig && looping {
                    (e + self.loop_interval) as u128
                } else {
                    self.target
                },
                status: if trig && !looping {
                    SlotStatus::Triggered
                } else {
                    SlotStatus::Running
                },
                ..self
            }
        }
    }

    /// The events of a tick of `delta`: the warning first, then the trigger.
    pub open spec fn tick_events(self, delta: u128) -> Seq<SlotEvent> {
        if self.status != SlotStatus::Running {
            Seq::empty()
        } else {
            let warn: Seq<SlotEvent> = if self.warns_after(delta) {
                seq![SlotEvent::Warn]
            } else {
                Seq::empty()
            };
            let trig: Seq<SlotEvent> = if self.triggers_after(delta) {
                seq![SlotEvent::Trigger { auto_continue: self.loop_interval > 0 }]
            } else {
                Seq::empty()
            };
            warn + trig
        }
    }

    /// A fresh idle slot at position `index` made from `def`.
    pub open spec fn spec_new(index: usize, def: TimerSlotDef) -> TimerSlotRuntime {
        TimerSlotRuntime {
            index,
            id: def.id,
            name: def.name,
            status: SlotStatus::Idle,
            elapsed: 0,
            initial_target: secs_to_nanos(def.first) as u128,
            target: secs_to_nanos(def.first) as u128,
            loop_interval: secs_to_nanos(def.loop_interval) as u128,
            loop_count: 0,
            warn_seconds: def.warn_seconds,
            warn_fired: false,
        }
    }

    /// The slot after `start`: a paused slot resumes; an idle or triggered
    /// slot runs from zero with its warning re-armed; others are unchanged.
    pub open spec fn started(self) -> TimerSlotRuntime {
        if self.status == SlotStatus::Paused {
            TimerSlotRuntime { status: SlotStatus::Running, ..self }
        } else if self.status == SlotStatus::Idle || self.status == SlotStatus::Triggered {
            TimerSlotRuntime { status: SlotStatus::Running, elapsed: 0, warn_fired: false, ..self }
        } else {
            self
        }
    }

    /// The slot after `pause`: only a running slot pauses.
    pub open spec fn paused(self) -> TimerSlotRuntime {
        if self.status == SlotStatus::Running {
            TimerSlotRuntime { status: SlotStatus::Paused, ..self }
        } else {
            self
        }
    }

    /// The slot after `reset`: idle, back at its first target.
    pub open spec fn reset_state(self) -> TimerSlotRuntime {
        TimerSlotRuntime {
            status: SlotStatus::Idle,
            elapsed: 0,
            target: self.initial_target,
            loop_count: 0,
            warn_fired: false,
            ..self
        }
    }

    /// The slot after `restart`: reset, then running.
    pub open spec fn restarted(self) -> TimerSlotRuntime {
        TimerSlotRuntime { status: SlotStatus::Running, ..self.reset_state() }
    }

    /// Makes an idle slot from its definition.
    pub fn new(index: usize, def: TimerSlotDef) -> (res: Self)
        ensures
            res == Self::spec_new(index, def),
            res.wf(),
    {
        let first: u128 = (def.first as u128) * NANOS_PER_SEC;
        let interval: u128 = (def.loop_interval as u128) * NANOS_PER_SEC;
        TimerSlotRuntime {
            index,
            id: def.id,
            name: def.name,
            status: SlotStatus::Idle,
            elapsed: 0,
            initial_target: first,
            target: first,
            loop_interval: interval,
            loop_count: 0,
            warn_seconds: def.warn_seconds,
            warn_fired: false,
        }
    }

    /// Starts or resumes the slot.
    pub fn start(&mut self)
        ensures
            *final(self) == old(self).started(),
            old(self).wf() ==> final(self).wf(),
    {
        if self.status == SlotStatus::Paused {
            self.status = SlotStatus::Running;
        } else if self.status == SlotStatus::Idle || self.status == SlotStatus::Triggered {
            self.status = SlotStatus::Running;
            self.elapsed = 0;
            self.warn_fired = false;
        }
    }

    /// Pauses a running slot.
    pub fn pause(&mut self)
        ensures
            *final(self) == old(self).paused(),
            old(self).wf() ==> final(self).wf(),
    {
        if self.status == SlotStatus::Running {
            self.status = SlotStatus::Paused;
        }
    }

    /// Puts the slot back to idle at its first target.
    pub fn reset(&mut self)
        ensures
            *final(self) == old(self).reset_state(),
            old(self).wf() ==> final(self).wf(),
    {
        self.status = SlotStatus::Idle;
        self.elapsed = 0;
        self.target = self.initial_target;
        self.loop_count = 0;
        self.warn_fired = false;
    }

    /// Resets the slot and runs it from zero.
    pub fn restart(&mut self)
        ensures
            *final(self) == old(self).restarted(),
            old(self).wf() ==> final(self).wf(),
    {
        self.reset();
        self.status = SlotStatus::Running;
    }

    /// Whether `tick(delta)` stays within the integer ranges.
    pub fn can_tick(&self, delta: u128) -> (b: bool)
        ensures
            b == self.tick_fits(delta),
    {
        if self.status != SlotStatus::Running {
            return true;
        }
        if self.elapsed > u128::MAX - delta {
            return false;
        }
        let e = self.elapsed + delta;
        if self.target > 0 && e >= self.target {
            if self.loop_count == u32::MAX {
                return false;
            }
            if self.loop_interval > 0 && e > u128::MAX - self.loop_interval {
                return false;
            }
        }
        true
    }

    /// Advances a running slot by `delta` and reports its warning and trigger.
    pub fn tick(&mut self, delta: u128) -> (events: Vec<SlotEvent>)
        requires
            old(self).tick_fits(delta),
        ensures
            *final(self) == old(self).ticked(delta),
            events@ == old(self).tick_events(delta),
            old(self).wf() ==> final(self).wf(),
    {
        let ghost s0 = *self;
        if self.status != SlotStatus::Running {
            return Vec::new();
        }
        self.elapsed = self.elapsed + delta;
        let mut events: Vec<SlotEvent> = Vec::new();

        if !self.warn_fired && self.target > 0 {
            let warn_secs: u128 = (self.warn_seconds as u128) * NANOS_PER_SEC;
            let warn_at = self.target.saturating_sub(warn_secs);
            if self.elapsed >= warn_at {
                self.warn_fired = true;
                events.push(SlotEvent::Warn);
            }
        }

        if self.target > 0 && self.elapsed >= self.target {
            self.loop_count = self.loop_count + 1;
            if self.loop_interval > 0 {
                self.target = self.elapsed + self.loop_interval;
                self.warn_fired = false;
                events.push(SlotEvent::Trigger { auto_continue: true });
            } else {
                self.status = SlotStatus::Triggered;
                events.push(SlotEvent::Trigger { auto_continue: false });
            }
        }
        assert(events@ =~= s0.tick_events(delta));
        events
    }
}

} // verus!

verus! {

impl Clone for TimerSlotRuntime {
    fn clone(&self) -> (r: Self)
        ensures
            r == *self,
    {
        TimerSlotRuntime {
            index: self.index,
            id: self.id.clone(),
            name: self.name.clone(),
            status: self.status,
            elapsed: self.elapsed,
            initial_target: self.initial_target,
            target: self.target,
            loop_interval: self.loop_interval,
            loop_count: self.loop_count,
            warn_seconds: self.warn_seconds,
            warn_fired: self.warn_fired,
        }
    }
}

} // verus!

verus! {

/// The number of trigger events in a list.
pub open spec fn trigger_count(evs: Seq<SlotEvent>) -> nat
    decreases evs.len(),
{
    if evs.len() == 0 {
        0
    } else {
        trigger_count(evs.drop_last()) + if evs.last() is Trigger {
            1nat
        } else {
            0nat
        }
    }
}

/// A new slot keeps the slot invariant.
pub proof fn lemma_new_is_wf(index: usize, def: TimerSlotDef)
    ensures
        TimerSlotRuntime::spec_new(index, def).wf(),
{
}

/// Every operation keeps the slot invariant.
pub proof fn lemma_operations_keep_wf(s: TimerSlotRuntime, delta: u128)
    requires
        s.wf(),
    ensures
        s.started().wf(),
        s.paused().wf(),
        s.reset_state().wf(),
        s.restarted().wf(),
        s.tick_fits(delta) ==> s.ticked(delta).wf(),
{
}

/// Pausing a running slot and starting it again resumes it exactly where
/// it stood.
pub proof fn lemma_pause_then_start_resumes(s: TimerSlotRuntime)
    requires
        s.status == SlotStatus::Running,
    ensures
        s.paused().started() == s,
{
}

/// Reset forgets history: after any operation, resetting gives the same
/// slot as resetting before it; and resetting twice is resetting once.
pub proof fn lemma_reset_forgets_history(s: TimerSlotRuntime, delta: u128)
    ensures
        s.started().reset_state() == s.reset_state(),
        s.paused().reset_state() == s.reset_state(),
        s.restarted().reset_state() == s.reset_state(),
        s.ticked(delta).reset_state() == s.reset_state(),
        s.reset_state().reset_state() == s.reset_state(),
{
}

/// A fresh slot is its own reset.
pub proof fn lemma_new_is_reset(index: usize, def: TimerSlotDef)
    ensures
        TimerSlotRuntime::spec_new(index, def).reset_state() == TimerSlotRuntime::spec_new(
            index,
            def,
        ),
{
}

/// A slot that is not running does not change on a tick and reports nothing.
pub proof fn lemma_idle_tick_is_noop(s: TimerSlotRuntime, delta: u128)
    requires
        s.status != SlotStatus::Running,
    ensures
        s.ticked(delta) == s,
        s.tick_events(delta).len() == 0,
{
}

/// Each trigger event counts once in the loop count; a warning already
/// given is not given again; a looping slot keeps running with its next
/// target ahead of it and its warning re-armed.
pub proof fn lemma_tick_accounting(s: TimerSlotRuntime, delta: u128)
    requires
        s.tick_fits(delta),
    ensures
        s.ticked(delta).loop_count == s.loop_count + trigger_count(s.tick_events(delta)),
        s.warn_fired ==> !s.tick_events(delta).contains(SlotEvent::Warn),
        s.status == SlotStatus::Running && s.loop_interval > 0 ==> {
            &&& s.ticked(delta).status == SlotStatus::Running
            &&& s.triggers_after(delta) ==> s.ticked(delta).target > s.ticked(delta).elapsed
                && !s.ticked(delta).warn_fired
        },
        s.status == SlotStatus::Running && s.loop_interval == 0 && s.triggers_after(delta)
            ==> s.ticked(delta).status == SlotStatus::Triggered,
{
    let evs = s.tick_events(delta);
    reveal_with_fuel(trigger_count, 3);
    if s.status == SlotStatus::Running {
        let w: Seq<SlotEvent> = if s.warns_after(delta) { seq![SlotEvent::Warn] } else { Seq::empty() };
        let t: Seq<SlotEvent> = if s.triggers_after(delta) {
            seq![SlotEvent::Trigger { auto_continue: s.loop_interval > 0 }]
        } else {
            Seq::empty()
        };
        assert(evs == w + t);
        if s.triggers_after(delta) {
            assert(evs.drop_last() =~= w);
        } else {
            assert(evs =~= w);
        }
        if w.len() == 1 {
            assert(w.drop_last() =~= Seq::<SlotEvent>::empty());
        }
        assert(trigger_count(w) == 0);
        if s.warn_fired {
            assert(!s.warns_after(delta));
            assert(!evs.contains(SlotEvent::Warn)) by {
                if evs.contains(SlotEvent::Warn) {
                    let j = choose|j: int| 0 <= j < evs.len() && evs[j] == SlotEvent::Warn;
                    assert(evs[j] is Trigger);
                }
            }
        }
    } else {
        assert(evs.len() == 0);
    }
}

/// A tick of `delta` on a running slot, in numbers. The elapsed time grows
/// by `delta`. The slot triggers when its target is set and now reached; a
/// looping slot then aims one interval past the new elapsed time with its
/// warning re-armed, a one-shot slot stops as triggered. The warning is
/// reported once, when the elapsed time comes within `warn_seconds` of the
/// target, before the trigger of the same tick. What the slot is and how
/// it is timed stays as it was.
pub proof fn lemma_running_tick(s: TimerSlotRuntime, delta: u128)
    requires
        s.status == SlotStatus::Running,
        s.tick_fits(delta),
    ensures
        ({
            let t = s.ticked(delta);
            let e = s.elapsed + delta;
            let hit = s.target > 0 && e >= s.target;
            let warn = !s.warn_fired && s.target > 0 && e + (s.warn_seconds as int)
                * 1_000_000_000 >= s.target;
            &&& t.elapsed == e
            &&& t.index == s.index && t.id == s.id && t.name == s.name
            &&& t.initial_target == s.initial_target && t.loop_interval == s.loop_interval
            &&& t.warn_seconds == s.warn_seconds
            &&& t.loop_count == if hit { s.loop_count + 1 } else { s.loop_count as int }
            &&& (hit && s.loop_interval > 0) ==> {
                &&& t.status == SlotStatus::Running
                &&& t.target == e + s.loop_interval
                &&& !t.warn_fired
            }
            &&& (hit && s.loop_interval == 0) ==> {
                &&& t.status == SlotStatus::Triggered
                &&& t.target == s.target
                &&& t.warn_fired == (s.warn_fired || warn)
            }
            &&& !hit ==> {
                &&& t.status == SlotStatus::Running
                &&& t.target == s.target
                &&& t.warn_fired == (s.warn_fired || warn)
            }
            &&& s.tick_events(delta) == (if warn { seq![SlotEvent::Warn] } else { Seq::empty() })
                + (if hit {
                seq![SlotEvent::Trigger { auto_continue: s.loop_interval > 0 }]
            } else {
                Seq::empty()
            })
        }),
{
}

} // verus!
