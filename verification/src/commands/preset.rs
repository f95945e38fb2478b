//! Preset selection, cycling and editing.

use vstd::prelude::*;
use crate::ids::{utc_now_rfc3339, utc_timestamp_text, uuid_v4_text};
use crate::models::preset::{clone_opt_string, PresetRequest, PresetType, TimerPreset, TimerSlotDef};
use crate::utils::text::{str_eq, text};

verus! {

/// The slots that selecting a preset loads: the single timer as one slot
/// named and identified after the preset, or the preset's slots.
pub open spec fn preset_slots(p: TimerPreset) -> Seq<TimerSlotDef> {
    match p.preset_type {
        PresetType::Single {
            first,
            loop_interval,
            warn_seconds,
            warn_text,
            hotkey,
            bar_color,
            text_color,
            ..
        } => seq![
            TimerSlotDef {
                id: p.id,
                name: p.name,
                first,
                loop_interval,
                warn_seconds,
                warn_text,
                hotkey,
                bar_color,
                text_color,
            },
        ],
        PresetType::Multi { slots, .. } => slots@,
    }
}

/// The hotkeys of the slots that have one, in slot order.
pub open spec fn slot_hotkeys(slots: Seq<TimerSlotDef>) -> Seq<String>
    decreases slots.len(),
{
    if slots.len() == 0 {
        Seq::empty()
    } else {
        slot_hotkeys(slots.drop_last()) + match slots.last().hotkey {
            Some(h) => seq![h],
            None => Seq::empty(),
        }
    }
}

/// What selecting a preset puts in place: its id, its slots for the
/// engine, and the hotkeys to listen for.
pub struct PresetSelection {
    pub preset_id: String,
    pub slots: Vec<TimerSlotDef>,
    pub hotkeys: Vec<String>,
}

/// Copies a list of slot definitions.
pub fn copy_slot_defs(v: &Vec<TimerSlotDef>) -> (r: Vec<TimerSlotDef>)
    ensures
        r@ == v@,
{
    let mut r: Vec<TimerSlotDef> = Vec::new();
    let n = v.len();
    let mut i: usize = 0;
    while i < n
        invariant
            n == v@.len(),
            i <= n,
            r@ =~= v@.take(i as int),
        decreases n - i,
    {
        r.push(v[i].clone());
        i = i + 1;
    }
    assert(v@.take(n as int) =~= v@);
    r
}

/// The hotkeys of the slots that have one, in slot order.
pub fn collect_hotkeys(slots: &Vec<TimerSlotDef>) -> (r: Vec<String>)
    ensures
        r@ == slot_hotkeys(slots@),
{
    let mut r: Vec<String> = Vec::new();
    let n = slots.len();
    let mut i: usize = 0;
    while i < n
        invariant
            n == slots@.len(),
            i <= n,
            r@ == slot_hotkeys(slots@.take(i as int)),
        decreases n - i,
    {
        assert(slots@.take(i + 1).drop_last() =~= slots@.take(i as int));
        assert(slots@.take(i + 1).last() == slots@[i as int]);
        match &slots[i].hotkey {
            Some(h) => {
                r.push(h.clone());
            },
            None => {},
        }
        assert(r@ =~= slot_hotkeys(slots@.take(i + 1)));
        i = i + 1;
    }
    assert(slots@.take(n as int) =~= slots@);
    r
}

/// The hotkeys to listen for are the hotkeys of the slots that have one,
/// each once per slot, in slot order.
pub proof fn lemma_hotkeys_of_slots(slots: Seq<TimerSlotDef>)
    ensures
        slot_hotkeys(slots) == slots.filter_map(|d: TimerSlotDef| d.hotkey),
    decreases slots.len(),
{
    if slots.len() > 0 {
        lemma_hotkeys_of_slots(slots.drop_last());
        let f = |d: TimerSlotDef| d.hotkey;
        assert(slots.filter_map(f) == match f(slots.last()) {
            Some(h) => slots.drop_last().filter_map(f) + seq![h],
            None => slots.drop_last().filter_map(f),
        });
        if slots.last().hotkey is None {
            assert(slot_hotkeys(slots) =~= slot_hotkeys(slots.drop_last()));
        }
    }
}

/// What selecting `preset` loads: its slots and the hotkeys bound in them.
pub fn select_preset(preset: &TimerPreset) -> (sel: PresetSelection)
    ensures
        sel.preset_id == preset.id,
        sel.slots@ == preset_slots(*preset),
        sel.hotkeys@ == slot_hotkeys(sel.slots@),
        preset.preset_type matches PresetType::Single { first, loop_interval, warn_seconds, .. }
            ==> sel.slots@.len() == 1 && sel.slots@[0].first == first
            && sel.slots@[0].loop_interval == loop_interval
            && sel.slots@[0].warn_seconds == warn_seconds,
{
    let slots: Vec<TimerSlotDef> = match &preset.preset_type {
        PresetType::Single {
            first,
            loop_interval,
            warn_seconds,
            warn_text,
            hotkey,
            bar_color,
            text_color,
            ..
        } => {
            let mut v: Vec<TimerSlotDef> = Vec::new();
            v.push(
                TimerSlotDef {
                    id: preset.id.clone(),
                    name: preset.name.clone(),
                    first: *first,
                    loop_interval: *loop_interval,
                    warn_seconds: *warn_seconds,
                    warn_text: clone_opt_string(warn_text),
                    hotkey: clone_opt_string(hotkey),
                    bar_color: clone_opt_string(bar_color),
                    text_color: clone_opt_string(text_color),
                },
            );
            assert(v@ =~= preset_slots(*preset));
            v
        },
        PresetType::Multi { slots, .. } => copy_slot_defs(slots),
    };
    let hotkeys = collect_hotkeys(&slots);
    PresetSelection { preset_id: preset.id.clone(), slots, hotkeys }
}

/// Selecting a single-timer preset loads exactly one slot that carries the
/// preset's id and name and its timings, warning and key field for field:
/// the first wave at `first`, then every `loop_interval`, warned
/// `warn_seconds` ahead. Selecting a multi-slot preset loads its slots as
/// they are, in order.
pub proof fn lemma_selected_slots(p: TimerPreset)
    ensures
        match p.preset_type {
            PresetType::Single {
                first,
                loop_interval,
                warn_seconds,
                warn_text,
                hotkey,
                bar_color,
                text_color,
                ..
            } => {
                let d = preset_slots(p);
                &&& d.len() == 1
                &&& d[0].id == p.id
                &&& d[0].name == p.name
                &&& d[0].first == first
                &&& d[0].loop_interval == loop_interval
                &&& d[0].warn_seconds == warn_seconds
                &&& d[0].warn_text == warn_text
                &&& d[0].hotkey == hotkey
                &&& d[0].bar_color == bar_color
                &&& d[0].text_color == text_color
            },
            PresetType::Multi { slots, .. } => preset_slots(p) == slots@,
        },
{
}

/// The position of the first preset with id `id`.
pub open spec fn position_of(ps: Seq<TimerPreset>, id: Seq<char>) -> Option<int>
    decreases ps.len(),
{
    if ps.len() == 0 {
        None
    } else {
        match position_of(ps.drop_last(), id) {
            Some(i) => Some(i),
            None => if ps.last().id@ == id {
                Some(ps.len() - 1)
            } else {
                None
            },
        }
    }
}

/// The position of the preset that follows the current one: the next one
/// in the list, wrapping around, or the first when there is no current
/// preset or it is not in the list.
pub open spec fn next_position(ps: Seq<TimerPreset>, current: Option<String>) -> int {
    match current {
        Some(c) => match position_of(ps, c@) {
            Some(i) => (i + 1) % (ps.len() as int),
            None => 0,
        },
        None => 0,
    }
}

/// The position of the first preset with id `id`.
pub fn find_preset(presets: &Vec<TimerPreset>, id: &String) -> (r: Option<usize>)
    ensures
        match r {
            Some(i) => position_of(presets@, id@) == Some(i as int),
            None => position_of(presets@, id@) is None,
        },
        r matches Some(i) ==> i < presets@.len(),
{
    let n = presets.len();
    let mut i: usize = 0;
    while i < n
        invariant
            n == presets@.len(),
            i <= n,
            position_of(presets@.take(i as int), id@) is None,
        decreases n - i,
    {
        assert(presets@.take(i + 1).drop_last() =~= presets@.take(i as int));
        if presets[i].id == *id {
            proof {
                lemma_position_of_prefix(presets@, id@, i + 1);
            }
            return Some(i);
        }
        i = i + 1;
    }
    assert(presets@.take(n as int) =~= presets@);
    None
}

/// A position found in a prefix is the position in the whole list.
pub proof fn lemma_position_of_prefix(ps: Seq<TimerPreset>, id: Seq<char>, k: int)
    requires
        0 <= k <= ps.len(),
        position_of(ps.take(k), id) is Some,
    ensures
        position_of(ps, id) == position_of(ps.take(k), id),
    decreases ps.len() - k,
{
    if k < ps.len() {
        assert(ps.take(k + 1).drop_last() =~= ps.take(k));
        lemma_position_of_prefix(ps, id, k + 1);
    } else {
        assert(ps.take(k) =~= ps);
    }
}

/// The id of the preset that `next` selects, or nothing when there are
/// no presets.
pub fn next_preset(presets: &Vec<TimerPreset>, current_id: &Option<String>) -> (r: Option<String>)
    ensures
        presets@.len() == 0 ==> r is None,
        presets@.len() > 0 ==> r == Some(presets@[next_position(presets@, *current_id)].id),
{
    if presets.len() == 0 {
        return None;
    }
    let idx: usize = match current_id {
        Some(c) => match find_preset(presets, c) {
            Some(i) => (i + 1) % presets.len(),
            None => 0,
        },
        None => 0,
    };
    Some(presets[idx].id.clone())
}

/// With distinct ids, `next` moves from each preset to the one after it,
/// and from the last back to the first.
pub proof fn lemma_next_cycles(ps: Seq<TimerPreset>, i: int)
    requires
        0 <= i < ps.len(),
        forall|a: int, b: int| 0 <= a < b < ps.len() ==> ps[a].id@ != ps[b].id@,
    ensures
        next_position(ps, Some(ps[i].id)) == (i + 1) % (ps.len() as int),
{
    lemma_position_of_distinct(ps, i);
}

/// With no preset selected, or with one that is no longer in the list,
/// `next` selects the first preset.
pub proof fn lemma_next_starts_at_first(ps: Seq<TimerPreset>, current: Option<String>)
    requires
        current matches Some(c) ==> forall|a: int| 0 <= a < ps.len() ==> ps[a].id@ != c@,
    ensures
        next_position(ps, current) == 0,
{
    if let Some(c) = current {
        lemma_position_absent(ps, c@);
    }
}

/// With distinct ids, the position of a preset's id is its position.
pub proof fn lemma_position_of_distinct(ps: Seq<TimerPreset>, i: int)
    requires
        0 <= i < ps.len(),
        forall|a: int, b: int| 0 <= a < b < ps.len() ==> ps[a].id@ != ps[b].id@,
    ensures
        position_of(ps, ps[i].id@) == Some(i),
    decreases ps.len(),
{
    let p = ps.drop_last();
    if i < ps.len() - 1 {
        assert(p[i] == ps[i]);
        lemma_position_of_distinct(p, i);
    } else {
        lemma_position_absent(p, ps[i].id@);
    }
}

/// An id that no preset has has no position.
pub proof fn lemma_position_absent(ps: Seq<TimerPreset>, id: Seq<char>)
    requires
        forall|a: int| 0 <= a < ps.len() ==> ps[a].id@ != id,
    ensures
        position_of(ps, id) is None,
    decreases ps.len(),
{
    if ps.len() > 0 {
        lemma_position_absent(ps.drop_last(), id);
    }
}

/// Whether deleting preset `id` clears the current selection: it does
/// exactly when `id` is the selected preset.
pub fn delete_preset(current_id: &Option<String>, id: &str) -> (clears: bool)
    ensures
        clears == (current_id matches Some(c) && c@ == id@),
{
    match current_id {
        Some(c) => str_eq(c.as_str(), id),
        None => false,
    }
}

/// A new preset from a create request: a fresh user preset with the
/// request's name, description and kind.
pub fn create_preset(data: PresetRequest) -> (p: TimerPreset)
    ensures
        uuid_v4_text(p.id@),
        p.name == data.name,
        p.desc == data.desc,
        p.preset_type == data.preset_type,
        p.hint is None,
        p.note is None,
        p.created_at == p.updated_at,
        utc_timestamp_text(p.created_at@),
        !p.is_builtin,
{
    let mut p = TimerPreset::new(data.name.as_str(), data.preset_type);
    p.name = data.name;
    p.desc = data.desc;
    p
}

/// Applies an update request to a preset: name, description and kind are
/// replaced and the preset is marked updated at `now`.
pub fn update_preset_at(preset: &mut TimerPreset, data: PresetRequest, now: String)
    ensures
        *final(preset) == (TimerPreset {
            name: data.name,
            desc: data.desc,
            preset_type: data.preset_type,
            updated_at: now,
            ..*old(preset)
        }),
{
    preset.name = data.name;
    preset.desc = data.desc;
    preset.preset_type = data.preset_type;
    preset.updated_at = now;
}

/// Applies an update request to a preset: name, description and kind are
/// replaced and the preset is marked updated now.
pub fn update_preset(preset: &mut TimerPreset, data: PresetRequest)
    ensures
        final(preset).name == data.name,
        final(preset).desc == data.desc,
        final(preset).preset_type == data.preset_type,
        *final(preset) == (TimerPreset {
            name: data.name,
            desc: data.desc,
            preset_type: data.preset_type,
            updated_at: final(preset).updated_at,
            ..*old(preset)
        }),
        utc_timestamp_text(final(preset).updated_at@),
{
    update_preset_at(preset, data, utc_now_rfc3339());
}

/// The slot position is valid for the preset: zero for a single timer, in
/// range for a multi-slot preset.
pub open spec fn slot_index_ok(pt: PresetType, slot_index: usize) -> bool {
    match pt {
        PresetType::Single { .. } => slot_index == 0,
        PresetType::Multi { slots, .. } => slot_index < slots@.len(),
    }
}

/// An optional replacement: the new value when there is one.
pub open spec fn replaced(new: Option<String>, old: Option<String>) -> Option<String> {
    match new {
        Some(c) => Some(c),
        None => old,
    }
}

/// `d2` is `d` with its hotkey set and its colours replaced where given.
pub open spec fn slot_configured(
    d: TimerSlotDef,
    d2: TimerSlotDef,
    hotkey: Option<String>,
    bar_color: Option<String>,
    text_color: Option<String>,
) -> bool {
    d2 == TimerSlotDef {
        hotkey,
        bar_color: replaced(bar_color, d.bar_color),
        text_color: replaced(text_color, d.text_color),
        ..d
    }
}

/// `pt2` is `pt` with the slot at `slot_index` configured.
pub open spec fn preset_configured(
    pt: PresetType,
    pt2: PresetType,
    slot_index: usize,
    hotkey: Option<String>,
    bar_color: Option<String>,
    text_color: Option<String>,
) -> bool {
    match (pt, pt2) {
        (
            PresetType::Single {
                first,
                loop_interval,
                followups,
                warn_seconds,
                warn_text,
                bar_color: b,
                text_color: t,
                ..
            },
            PresetType::Single {
                first: first2,
                loop_interval: loop_interval2,
                followups: followups2,
                warn_seconds: warn_seconds2,
                warn_text: warn_text2,
                hotkey: h2,
                bar_color: b2,
                text_color: t2,
            },
        ) => {
            &&& first2 == first
            &&& loop_interval2 == loop_interval
            &&& followups2 == followups
            &&& warn_seconds2 == warn_seconds
            &&& warn_text2 == warn_text
            &&& h2 == hotkey
            &&& b2 == replaced(bar_color, b)
            &&& t2 == replaced(text_color, t)
        },
        (PresetType::Multi { slots, sequential }, PresetType::Multi { slots: slots2, sequential: sequential2 }) => {
            &&& sequential2 == sequential
            &&& slots2@.len() == slots@.len()
            &&& forall|i: int|
                0 <= i < slots@.len() && i != slot_index ==> slots2@[i] == slots@[i]
            &&& slot_configured(slots@[slot_index as int], slots2@[slot_index as int], hotkey, bar_color, text_color)
        },
        _ => false,
    }
}

/// `p2` is `p` with the slot at `slot_index` configured; only its kind
/// and its update time differ.
pub open spec fn slot_config_applied(
    p: TimerPreset,
    p2: TimerPreset,
    slot_index: usize,
    hotkey: Option<String>,
    bar_color: Option<String>,
    text_color: Option<String>,
) -> bool {
    &&& preset_configured(p.preset_type, p2.preset_type, slot_index, hotkey, bar_color, text_color)
    &&& p2.id == p.id
    &&& p2.name == p.name
    &&& p2.desc == p.desc
    &&& p2.hint == p.hint
    &&& p2.note == p.note
    &&& p2.created_at == p.created_at
    &&& p2.is_builtin == p.is_builtin
}

/// Sets the hotkey of one slot of a preset, and its colours where given,
/// marking the preset updated at `now`. A slot position out of range is
/// refused and leaves the preset as it was.
pub fn apply_slot_config_at(
    preset: &mut TimerPreset,
    slot_index: usize,
    hotkey: Option<String>,
    bar_color: Option<String>,
    text_color: Option<String>,
    now: String,
) -> (r: Result<(), String>)
    ensures
        r is Ok <==> slot_index_ok(old(preset).preset_type, slot_index),
        r matches Err(e) ==> e@ == "Slot index out of range"@ && *final(preset) == *old(preset),
        r is Ok ==> slot_config_applied(*old(preset), *final(preset), slot_index, hotkey, bar_color, text_color)
            && final(preset).updated_at == now,
{
    let mut pt = PresetType::Multi { slots: Vec::new(), sequential: false };
    std::mem::swap(&mut pt, &mut preset.preset_type);
    match pt {
        PresetType::Single {
            first,
            loop_interval,
            followups,
            warn_seconds,
            warn_text,
            hotkey: h,
            bar_color: b,
            text_color: t,
        } => {
            if slot_index != 0 {
                preset.preset_type = PresetType::Single {
                    first,
                    loop_interval,
                    followups,
                    warn_seconds,
                    warn_text,
                    hotkey: h,
                    bar_color: b,
                    text_color: t,
                };
                return Err(text("Slot index out of range"));
            }
            let b2 = match bar_color {
                Some(c) => Some(c),
                None => b,
            };
            let t2 = match text_color {
                Some(c) => Some(c),
                None => t,
            };
            preset.preset_type = PresetType::Single {
                first,
                loop_interval,
                followups,
                warn_seconds,
                warn_text,
                hotkey,
                bar_color: b2,
                text_color: t2,
            };
        },
        PresetType::Multi { slots, sequential } => {
            if slot_index >= slots.len() {
                preset.preset_type = PresetType::Multi { slots, sequential };
                return Err(text("Slot index out of range"));
            }
            let mut slots = slots;
            let mut slot = slots[slot_index].clone();
            slot.hotkey = hotkey;
            match bar_color {
                Some(c) => {
                    slot.bar_color = Some(c);
                },
                None => {},
            }
            match text_color {
                Some(c) => {
                    slot.text_color = Some(c);
                },
                None => {},
            }
            slots.set(slot_index, slot);
            preset.preset_type = PresetType::Multi { slots, sequential };
        },
    }
    preset.updated_at = now;
    Ok(())
}

/// Sets the hotkey of one slot of a preset, and its colours where given,
/// marking the preset updated now. A slot position out of range is
/// refused and leaves the preset as it was.
pub fn apply_slot_config(
    preset: &mut TimerPreset,
    slot_index: usize,
    hotkey: Option<String>,
    bar_color: Option<String>,
    text_color: Option<String>,
) -> (r: Result<(), String>)
    ensures
        r is Ok <==> slot_index_ok(old(preset).preset_type, slot_index),
        r matches Err(e) ==> e@ == "Slot index out of range"@ && *final(preset) == *old(preset),
        r is Ok ==> slot_config_applied(*old(preset), *final(preset), slot_index, hotkey, bar_color, text_color)
            && utc_timestamp_text(final(preset).updated_at@),
{
    apply_slot_config_at(preset, slot_index, hotkey, bar_color, text_color, utc_now_rfc3339())
}

} // verus!
