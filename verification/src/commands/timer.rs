//! Which engine commands the timer buttons and hotkeys send.

use vstd::prelude::*;
use crate::models::preset::{SlotStatus, TimerSlotDef};
use crate::timer::timer_engine::{first_startable, slots_after, startable, EngineCommand};
use crate::timer::timer_state::TimerSlotRuntime;
use crate::utils::text::str_eq;

verus! {

/// The slot definition is bound to the hotkey `hk`.
pub open spec fn binds(d: TimerSlotDef, hk: Seq<char>) -> bool {
    d.hotkey matches Some(h) && h@ == hk
}

/// The positions of the slots bound to `hk`, in order.
pub open spec fn bound_indices(slots: Seq<TimerSlotDef>, hk: Seq<char>) -> Seq<usize>
    decreases slots.len(),
{
    if slots.len() == 0 {
        Seq::empty()
    } else {
        bound_indices(slots.drop_last(), hk) + if binds(slots.last(), hk) {
            seq![(slots.len() - 1) as usize]
        } else {
            Seq::empty()
        }
    }
}

/// The positions of the slots bound to `hotkey`.
pub fn bound_slot_indices(slots: &Vec<TimerSlotDef>, hotkey: &str) -> (r: Vec<usize>)
    ensures
        r@ == bound_indices(slots@, hotkey@),
{
    let mut r: Vec<usize> = Vec::new();
    let n = slots.len();
    let mut i: usize = 0;
    while i < n
        invariant
            n == slots@.len(),
            i <= n,
            r@ == bound_indices(slots@.take(i as int), hotkey@),
        decreases n - i,
    {
        assert(slots@.take(i + 1).drop_last() =~= slots@.take(i as int));
        assert(slots@.take(i + 1).last() == slots@[i as int]);
        let bound = match &slots[i].hotkey {
            Some(h) => str_eq(h.as_str(), hotkey),
            None => false,
        };
        if bound {
            r.push(i);
        }
        proof {
            if bound {
                assert(r@ =~= bound_indices(slots@.take(i + 1), hotkey@));
            } else {
                assert(r@ =~= bound_indices(slots@.take(i + 1), hotkey@));
            }
        }
        i = i + 1;
    }
    assert(slots@.take(n as int) =~= slots@);
    r
}

/// The command a hotkey sends: nothing when no slot is bound to it, a
/// toggle of the one bound slot, or a start of the first idle slot among
/// several bound slots (which never resets a slot).
pub fn trigger_hotkey(slots: &Vec<TimerSlotDef>, hotkey: &str) -> (cmd: Option<EngineCommand>)
    ensures
        ({
            let b = bound_indices(slots@, hotkey@);
            match cmd {
                None => b.len() == 0,
                Some(EngineCommand::ToggleSlot(i)) => b.len() == 1 && i == b[0],
                Some(EngineCommand::StartSlotsBatch(v)) => b.len() > 1 && v@ == b,
                _ => false,
            }
        }),
{
    let bound = bound_slot_indices(slots, hotkey);
    if bound.len() == 0 {
        None
    } else if bound.len() == 1 {
        Some(EngineCommand::ToggleSlot(bound[0]))
    } else {
        Some(EngineCommand::StartSlotsBatch(bound))
    }
}

/// The commands of the start button: start every slot, in order.
pub fn start_timer(slots: &Vec<TimerSlotDef>) -> (cmds: Vec<EngineCommand>)
    ensures
        cmds@.len() == slots@.len(),
        forall|i: int| 0 <= i < cmds@.len() ==> cmds@[i] == EngineCommand::StartSlot(i as usize),
{
    let mut cmds: Vec<EngineCommand> = Vec::new();
    let n = slots.len();
    let mut i: usize = 0;
    while i < n
        invariant
            n == slots@.len(),
            i <= n,
            cmds@.len() == i,
            forall|j: int| 0 <= j < i ==> cmds@[j] == EngineCommand::StartSlot(j as usize),
        decreases n - i,
    {
        cmds.push(EngineCommand::StartSlot(i));
        i = i + 1;
    }
    cmds
}

/// The commands of the pause button: pause every slot, in order.
pub fn pause_timer(slots: &Vec<TimerSlotDef>) -> (cmds: Vec<EngineCommand>)
    ensures
        cmds@.len() == slots@.len(),
        forall|i: int| 0 <= i < cmds@.len() ==> cmds@[i] == EngineCommand::PauseSlot(i as usize),
{
    let mut cmds: Vec<EngineCommand> = Vec::new();
    let n = slots.len();
    let mut i: usize = 0;
    while i < n
        invariant
            n == slots@.len(),
            i <= n,
            cmds@.len() == i,
            forall|j: int| 0 <= j < i ==> cmds@[j] == EngineCommand::PauseSlot(j as usize),
        decreases n - i,
    {
        cmds.push(EngineCommand::PauseSlot(i));
        i = i + 1;
    }
    cmds
}

/// The bound positions are exactly the slots bound to the hotkey, in
/// increasing order.
pub proof fn lemma_bound_indices_exact(slots: Seq<TimerSlotDef>, hk: Seq<char>)
    requires
        slots.len() <= usize::MAX,
    ensures
        forall|k: int|
            0 <= k < bound_indices(slots, hk).len() ==> {
                let i = #[trigger] bound_indices(slots, hk)[k];
                &&& i < slots.len()
                &&& slots[i as int].hotkey matches Some(h) && h@ == hk
            },
        forall|i: int|
            0 <= i < slots.len() && ((#[trigger] slots[i]).hotkey matches Some(h) && h@ == hk)
                ==> bound_indices(slots, hk).contains(i as usize),
        forall|k1: int, k2: int|
            0 <= k1 < k2 < bound_indices(slots, hk).len() ==> bound_indices(slots, hk)[k1]
                < bound_indices(slots, hk)[k2],
    decreases slots.len(),
{
    if slots.len() > 0 {
        let p = slots.drop_last();
        lemma_bound_indices_exact(p, hk);
        let b = bound_indices(slots, hk);
        let bp = bound_indices(p, hk);
        assert forall|k: int| 0 <= k < b.len() implies {
            let i = #[trigger] b[k];
            &&& i < slots.len()
            &&& binds(slots[i as int], hk)
        } by {
            if k < bp.len() {
                assert(b[k] == bp[k]);
                assert(p[bp[k] as int] == slots[bp[k] as int]);
            } else {
                assert(b[k] == (slots.len() - 1) as usize);
            }
        }
        assert forall|i: int| 0 <= i < slots.len() && binds(slots[i], hk) implies b.contains(
            i as usize,
        ) by {
            if i < p.len() {
                assert(p[i] == slots[i]);
                let k = choose|k: int| 0 <= k < bp.len() && bp[k] == i as usize;
                assert(b[k] == i as usize);
            } else {
                assert(b[b.len() - 1] == i as usize);
            }
        }
        assert forall|k1: int, k2: int| 0 <= k1 < k2 < b.len() implies b[k1] < b[k2] by {
            if k2 < bp.len() {
                assert(b[k1] == bp[k1] && b[k2] == bp[k2]);
            } else {
                assert(b[k1] == bp[k1]);
                assert(bp[k1] < p.len());
            }
        }
    }
}

/// A hotkey shared by several slots starts the first idle or triggered one
/// of them and never resets a slot: running and paused slots stay as
/// they are, and the one slot that changes is bound to the hotkey.
pub proof fn lemma_shared_hotkey_never_resets(
    defs: Seq<TimerSlotDef>,
    slots: Seq<TimerSlotRuntime>,
    hk: Seq<char>,
    v: Vec<usize>,
    j: int,
)
    requires
        v@ == bound_indices(defs, hk),
        0 <= j < slots.len(),
        slots.len() == defs.len(),
        defs.len() <= usize::MAX,
    ensures
        ({
            let r = slots_after(slots, EngineCommand::StartSlotsBatch(v));
            &&& r.len() == slots.len()
            &&& (slots[j].status == SlotStatus::Running || slots[j].status == SlotStatus::Paused)
                ==> r[j] == slots[j]
            &&& r[j] != slots[j] ==> binds(defs[j], hk) && startable(slots[j]) && r[j].status
                == SlotStatus::Running
        }),
{
    crate::timer::timer_engine::lemma_batch_start_never_resets(slots, v, j);
    crate::timer::timer_engine::lemma_first_startable_is_startable(slots, v@);
    lemma_bound_indices_exact(defs, hk);
    let r = slots_after(slots, EngineCommand::StartSlotsBatch(v));
    if r[j] != slots[j] {
        assert(first_startable(slots, v@) == Some(j as usize));
        let k = choose|k: int| 0 <= k < v@.len() && v@[k] == j as usize;
        assert(v@[k] == bound_indices(defs, hk)[k]);
    }
}

} // verus!
