use dn_timer::models::preset::{SlotStatus, TimerSlotDef};
use dn_timer::timer::timer_engine::{
    build_payload, find_first_startable, repeat_times, EngineAction, EngineCommand, EngineState,
    TickPayload, WarnConfig, WarnMark,
};
use dn_timer::timer::timer_state::{TimerSlotRuntime, NANOS_PER_SEC};

fn slot_def(id: &str, first: u32, loop_interval: u32, warn_seconds: u32) -> TimerSlotDef {
    TimerSlotDef {
        id: id.to_string(),
        name: id.to_uppercase(),
        first,
        loop_interval,
        warn_seconds,
        warn_text: None,
        hotkey: None,
        bar_color: None,
        text_color: None,
    }
}

fn secs(n: u128) -> u128 {
    n * NANOS_PER_SEC
}

fn engine_with(defs: Vec<TimerSlotDef>) -> EngineState {
    let mut e = EngineState::new(0);
    e.apply_command(EngineCommand::LoadSlots(defs));
    e
}

fn config(enabled: bool, repeat: &str) -> WarnConfig {
    WarnConfig { sound_enabled: enabled, sound_key: "soft_chime".to_string(), sound_repeat: repeat.to_string() }
}

#[test]
fn new_engine_is_empty_and_idle() {
    let e = EngineState::new(42);
    assert!(e.slots.is_empty());
    assert!(e.warn_config.is_none());
    assert_eq!(e.continuous_warn_last_play, WarnMark::Silent);
    assert_eq!(e.last_tick, 42);
    let p = TickPayload::idle();
    assert!(p.slots.is_empty());
    assert_eq!(p.global_status, "idle");
}

#[test]
fn load_slots_makes_idle_slots_in_order() {
    let e = engine_with(vec![slot_def("a", 10, 0, 3), slot_def("b", 20, 20, 5)]);
    assert_eq!(e.slots.len(), 2);
    assert_eq!(e.slots[0].index, 0);
    assert_eq!(e.slots[1].index, 1);
    assert_eq!(e.slots[1].id, "b");
    assert_eq!(e.slots[1].target, secs(20));
    assert_eq!(e.slots[0].status, SlotStatus::Idle);
}

#[test]
fn commands_outside_the_slots_change_nothing() {
    let mut e = engine_with(vec![slot_def("a", 10, 0, 3)]);
    e.apply_command(EngineCommand::StartSlot(5));
    e.apply_command(EngineCommand::ToggleSlot(9));
    assert_eq!(e.slots.len(), 1);
    assert_eq!(e.slots[0].status, SlotStatus::Idle);
}

#[test]
fn toggle_starts_restarts_and_resumes() {
    let mut e = engine_with(vec![slot_def("a", 10, 0, 3)]);
    e.apply_command(EngineCommand::ToggleSlot(0));
    assert_eq!(e.slots[0].status, SlotStatus::Running);
    assert!(e.can_advance(secs(4)));
    e.advance(secs(4));
    assert_eq!(e.slots[0].elapsed, secs(4));
    e.apply_command(EngineCommand::ToggleSlot(0));
    assert_eq!(e.slots[0].status, SlotStatus::Running);
    assert_eq!(e.slots[0].elapsed, 0);
    e.apply_command(EngineCommand::PauseSlot(0));
    e.apply_command(EngineCommand::ToggleSlot(0));
    assert_eq!(e.slots[0].status, SlotStatus::Running);
}

#[test]
fn batch_start_picks_first_idle_and_never_resets() {
    let mut e = engine_with(vec![slot_def("a", 30, 0, 3), slot_def("b", 30, 0, 3), slot_def("c", 30, 0, 3)]);
    e.apply_command(EngineCommand::StartSlotsBatch(vec![0, 1, 2]));
    assert_eq!(e.slots[0].status, SlotStatus::Running);
    assert_eq!(e.slots[1].status, SlotStatus::Idle);
    e.advance(secs(5));
    e.apply_command(EngineCommand::StartSlotsBatch(vec![0, 1, 2]));
    assert_eq!(e.slots[0].elapsed, secs(5));
    assert_eq!(e.slots[1].status, SlotStatus::Running);
    e.apply_command(EngineCommand::StartSlotsBatch(vec![0, 1, 2]));
    e.apply_command(EngineCommand::StartSlotsBatch(vec![0, 1, 2]));
    assert_eq!(e.slots[0].elapsed, secs(5));
    assert_eq!(e.slots[2].status, SlotStatus::Running);
}

#[test]
fn find_first_startable_skips_busy_and_missing_slots() {
    let mut e = engine_with(vec![slot_def("a", 30, 0, 3), slot_def("b", 30, 0, 3)]);
    e.apply_command(EngineCommand::StartSlot(0));
    assert_eq!(find_first_startable(&e.slots, &vec![7, 0, 1]), Some(1));
    e.apply_command(EngineCommand::StartSlot(1));
    assert_eq!(find_first_startable(&e.slots, &vec![0, 1]), None);
}

#[test]
fn reset_all_makes_every_slot_idle() {
    let mut e = engine_with(vec![slot_def("a", 10, 5, 3), slot_def("b", 20, 0, 3)]);
    e.apply_command(EngineCommand::StartSlot(0));
    e.apply_command(EngineCommand::StartSlot(1));
    e.advance(secs(12));
    e.apply_command(EngineCommand::ResetAll);
    for s in &e.slots {
        assert_eq!(s.status, SlotStatus::Idle);
        assert_eq!(s.elapsed, 0);
        assert_eq!(s.loop_count, 0);
        assert_eq!(s.target, s.initial_target);
    }
}

#[test]
fn warning_plays_the_sound_as_often_as_configured() {
    let mut e = engine_with(vec![slot_def("a", 10, 0, 3)]);
    e.apply_command(EngineCommand::UpdateWarnConfig(config(true, "2")));
    e.apply_command(EngineCommand::StartSlot(0));
    let out = e.advance(secs(7));
    assert_eq!(out.actions.len(), 3);
    assert!(matches!(&out.actions[0], EngineAction::EmitWarn { slot_index: 0, slot_id } if slot_id == "a"));
    assert!(matches!(&out.actions[1], EngineAction::PlaySound(k) if k == "soft_chime"));
    assert!(matches!(&out.actions[2], EngineAction::PlaySound(k) if k == "soft_chime"));
    assert_eq!(out.payload.global_status, "running");
    assert_eq!(out.payload.slots[0].status, "warning");
    assert_eq!(out.payload.slots[0].elapsed_ms, 7000);
    assert_eq!(out.payload.slots[0].remaining_ms, 3000);
    assert_eq!(out.payload.slots[0].target_ms, 10000);
    assert_eq!(out.payload.slots[0].name, "A");
}

#[test]
fn disabled_sound_only_announces() {
    let mut e = engine_with(vec![slot_def("a", 10, 0, 3)]);
    e.apply_command(EngineCommand::UpdateWarnConfig(config(false, "3")));
    e.apply_command(EngineCommand::StartSlot(0));
    let out = e.advance(secs(8));
    assert_eq!(out.actions.len(), 1);
    assert!(matches!(&out.actions[0], EngineAction::EmitWarn { .. }));
}

#[test]
fn trigger_is_announced_with_loop_count() {
    let mut e = engine_with(vec![slot_def("a", 10, 0, 3)]);
    e.apply_command(EngineCommand::StartSlot(0));
    e.advance(secs(7));
    let out = e.advance(secs(10));
    assert_eq!(out.actions.len(), 1);
    assert!(matches!(
        &out.actions[0],
        EngineAction::EmitTrigger { slot_index: 0, slot_id, loop_count: 1, auto_continue: false } if slot_id == "a"
    ));
    assert_eq!(out.payload.slots[0].status, "triggered");
    assert_eq!(out.payload.global_status, "idle");
    assert_eq!(out.payload.slots[0].remaining_ms, 0);
}

#[test]
fn looping_slot_shows_its_loop_interval_as_target() {
    let mut e = engine_with(vec![slot_def("a", 10, 4, 1)]);
    e.apply_command(EngineCommand::StartSlot(0));
    e.advance(secs(10));
    let out = e.advance(secs(11));
    assert_eq!(out.payload.slots[0].loop_count, 1);
    assert_eq!(out.payload.slots[0].target_ms, 4000);
    assert_eq!(out.payload.slots[0].remaining_ms, 3000);
    assert_eq!(out.payload.slots[0].elapsed_ms, 1000);
    assert_eq!(out.payload.slots[0].status, "running");
}

#[test]
fn continuous_warning_replays_every_second() {
    let mut e = engine_with(vec![slot_def("a", 10, 0, 5)]);
    e.apply_command(EngineCommand::UpdateWarnConfig(config(true, "continuous")));
    e.apply_command(EngineCommand::StartSlot(0));
    let out = e.advance(secs(5));
    assert_eq!(out.actions.len(), 3);
    assert!(matches!(&out.actions[0], EngineAction::EmitWarn { .. }));
    assert!(matches!(&out.actions[1], EngineAction::StampWarning));
    assert!(matches!(&out.actions[2], EngineAction::PlaySound(k) if k == "soft_chime"));
    assert_eq!(e.continuous_warn_last_play, WarnMark::Pending);
    e.stamp_warning(secs(5) + 1_000);
    assert_eq!(e.continuous_warn_last_play, WarnMark::PlayedAt(secs(5) + 1_000));
    e.stamp_warning(secs(9));
    assert_eq!(e.continuous_warn_last_play, WarnMark::PlayedAt(secs(5) + 1_000));
    let out = e.advance(secs(6));
    assert!(out.actions.is_empty());
    let out = e.advance(secs(6) + 1_000);
    assert_eq!(out.actions.len(), 1);
    assert!(matches!(&out.actions[0], EngineAction::PlaySound(k) if k == "soft_chime"));
    assert_eq!(e.continuous_warn_last_play, WarnMark::PlayedAt(secs(6) + 1_000));
    e.advance(secs(10));
    assert_eq!(e.continuous_warn_last_play, WarnMark::Silent);
}

#[test]
fn paused_engine_reports_paused() {
    let mut e = engine_with(vec![slot_def("a", 10, 0, 3)]);
    e.apply_command(EngineCommand::StartSlot(0));
    e.advance(secs(2));
    e.apply_command(EngineCommand::PauseSlot(0));
    let out = e.advance(secs(9));
    assert!(out.actions.is_empty());
    assert_eq!(out.payload.global_status, "paused");
    assert_eq!(out.payload.slots[0].status, "paused");
    assert_eq!(out.payload.slots[0].elapsed_ms, 2000);
}

#[test]
fn clock_going_back_counts_as_no_time() {
    let mut e = engine_with(vec![slot_def("a", 10, 0, 3)]);
    e.apply_command(EngineCommand::StartSlot(0));
    e.advance(secs(3));
    e.advance(secs(1));
    assert_eq!(e.slots[0].elapsed, secs(3));
    assert_eq!(e.last_tick, secs(1));
}

#[test]
fn repeat_setting_counts() {
    assert_eq!(repeat_times(&"1".to_string()), 1);
    assert_eq!(repeat_times(&"2".to_string()), 2);
    assert_eq!(repeat_times(&"3".to_string()), 3);
    assert_eq!(repeat_times(&"continuous".to_string()), 1);
    assert_eq!(repeat_times(&"banana".to_string()), 1);
}

#[test]
fn payload_of_fresh_slots_is_idle() {
    let slots = vec![TimerSlotRuntime::new(0, slot_def("x", 90, 0, 10))];
    let p = build_payload(&slots);
    assert_eq!(p.global_status, "idle");
    assert_eq!(p.slots.len(), 1);
    assert_eq!(p.slots[0].id, "x");
    assert_eq!(p.slots[0].status, "idle");
    assert_eq!(p.slots[0].remaining_ms, 90000);
    assert_eq!(p.slots[0].elapsed_ms, 0);
}

#[test]
fn a_slot_command_leaves_other_slots_alone() {
    let mut e = engine_with(vec![slot_def("a", 10, 0, 3), slot_def("b", 20, 0, 3)]);
    e.apply_command(EngineCommand::StartSlot(0));
    e.advance(secs(4));
    e.apply_command(EngineCommand::StartSlot(1));
    e.apply_command(EngineCommand::PauseSlot(1));
    e.apply_command(EngineCommand::ResetSlot(1));
    e.apply_command(EngineCommand::ToggleSlot(1));
    assert_eq!(e.slots[0].status, SlotStatus::Running);
    assert_eq!(e.slots[0].elapsed, secs(4));
    let out = e.advance(secs(5));
    let total = out.payload.slots[0].elapsed_ms + out.payload.slots[0].remaining_ms;
    assert_eq!(total, out.payload.slots[0].target_ms);
}
