use dn_timer::models::preset::{SlotStatus, TimerSlotDef};
use dn_timer::timer::timer_state::{SlotEvent, TimerSlotRuntime, NANOS_PER_SEC};

fn runtime_def(id: &str, first: u32, loop_interval: u32, warn_seconds: u32) -> TimerSlotDef {
    TimerSlotDef {
        id: id.to_string(),
        name: format!("slot {}", id),
        first,
        loop_interval,
        warn_seconds,
        warn_text: None,
        hotkey: None,
        bar_color: None,
        text_color: None,
    }
}

fn seconds(n: u128) -> u128 {
    n * NANOS_PER_SEC
}

#[test]
fn new_slot_is_idle_at_its_first_target() {
    let s = TimerSlotRuntime::new(2, runtime_def("a", 45, 30, 10));
    assert_eq!(s.index, 2);
    assert_eq!(s.id, "a");
    assert_eq!(s.name, "slot a");
    assert_eq!(s.status, SlotStatus::Idle);
    assert_eq!(s.elapsed, 0);
    assert_eq!(s.initial_target, seconds(45));
    assert_eq!(s.target, seconds(45));
    assert_eq!(s.loop_interval, seconds(30));
    assert_eq!(s.loop_count, 0);
    assert_eq!(s.warn_seconds, 10);
    assert!(!s.warn_fired);
}

#[test]
fn idle_slot_does_not_tick() {
    let mut s = TimerSlotRuntime::new(0, runtime_def("a", 5, 0, 1));
    assert!(s.can_tick(seconds(100)));
    let events = s.tick(seconds(100));
    assert!(events.is_empty());
    assert_eq!(s.elapsed, 0);
    assert_eq!(s.status, SlotStatus::Idle);
}

#[test]
fn looping_slot_warns_then_triggers_and_moves_its_target() {
    let mut s = TimerSlotRuntime::new(0, runtime_def("a", 10, 5, 3));
    s.start();
    assert_eq!(s.status, SlotStatus::Running);

    let events = s.tick(seconds(6));
    assert!(events.is_empty());
    assert_eq!(s.elapsed, seconds(6));

    let events = s.tick(seconds(1));
    assert_eq!(events.len(), 1);
    assert!(matches!(events[0], SlotEvent::Warn));
    assert!(s.warn_fired);

    let events = s.tick(seconds(3));
    assert_eq!(events.len(), 1);
    assert!(matches!(events[0], SlotEvent::Trigger { auto_continue: true }));
    assert_eq!(s.loop_count, 1);
    assert_eq!(s.target, seconds(15));
    assert!(!s.warn_fired);
    assert_eq!(s.status, SlotStatus::Running);
}

#[test]
fn one_long_tick_reports_warning_before_trigger() {
    let mut s = TimerSlotRuntime::new(0, runtime_def("a", 10, 0, 3));
    s.start();
    let events = s.tick(seconds(12));
    assert_eq!(events.len(), 2);
    assert!(matches!(events[0], SlotEvent::Warn));
    assert!(matches!(events[1], SlotEvent::Trigger { auto_continue: false }));
    assert_eq!(s.status, SlotStatus::Triggered);
    assert_eq!(s.loop_count, 1);
    assert_eq!(s.target, seconds(10));
    assert_eq!(s.elapsed, seconds(12));
}

#[test]
fn zero_target_never_fires() {
    let mut s = TimerSlotRuntime::new(0, runtime_def("a", 0, 0, 3));
    s.start();
    let events = s.tick(seconds(50));
    assert!(events.is_empty());
    assert_eq!(s.status, SlotStatus::Running);
    assert_eq!(s.elapsed, seconds(50));
}

#[test]
fn warning_longer_than_target_fires_at_once() {
    let mut s = TimerSlotRuntime::new(0, runtime_def("a", 2, 0, 5));
    s.start();
    let events = s.tick(1);
    assert_eq!(events.len(), 1);
    assert!(matches!(events[0], SlotEvent::Warn));
}

#[test]
fn pause_then_start_resumes_where_it_stopped() {
    let mut s = TimerSlotRuntime::new(0, runtime_def("a", 60, 0, 5));
    s.start();
    s.tick(seconds(20));
    s.pause();
    assert_eq!(s.status, SlotStatus::Paused);
    let events = s.tick(seconds(30));
    assert!(events.is_empty());
    assert_eq!(s.elapsed, seconds(20));
    s.start();
    assert_eq!(s.status, SlotStatus::Running);
    assert_eq!(s.elapsed, seconds(20));
}

#[test]
fn pause_leaves_idle_slot_alone() {
    let mut s = TimerSlotRuntime::new(0, runtime_def("a", 60, 0, 5));
    s.pause();
    assert_eq!(s.status, SlotStatus::Idle);
}

#[test]
fn start_of_triggered_slot_runs_again_from_zero() {
    let mut s = TimerSlotRuntime::new(0, runtime_def("a", 3, 0, 1));
    s.start();
    s.tick(seconds(4));
    assert_eq!(s.status, SlotStatus::Triggered);
    s.start();
    assert_eq!(s.status, SlotStatus::Running);
    assert_eq!(s.elapsed, 0);
    assert!(!s.warn_fired);
    assert_eq!(s.loop_count, 1);
}

#[test]
fn reset_forgets_loops_and_progress() {
    let mut s = TimerSlotRuntime::new(0, runtime_def("a", 10, 5, 3));
    s.start();
    s.tick(seconds(11));
    assert_eq!(s.loop_count, 1);
    s.reset();
    assert_eq!(s.status, SlotStatus::Idle);
    assert_eq!(s.elapsed, 0);
    assert_eq!(s.target, seconds(10));
    assert_eq!(s.loop_count, 0);
    assert!(!s.warn_fired);
}

#[test]
fn restart_is_reset_then_running() {
    let mut s = TimerSlotRuntime::new(0, runtime_def("a", 10, 5, 3));
    s.start();
    s.tick(seconds(12));
    s.restart();
    assert_eq!(s.status, SlotStatus::Running);
    assert_eq!(s.elapsed, 0);
    assert_eq!(s.target, seconds(10));
    assert_eq!(s.loop_count, 0);
}

#[test]
fn can_tick_refuses_overflowing_delta() {
    let mut s = TimerSlotRuntime::new(0, runtime_def("a", 10, 0, 3));
    s.start();
    s.tick(seconds(1));
    assert!(!s.can_tick(u128::MAX));
    assert!(s.can_tick(seconds(1)));
}

#[test]
fn long_runs_go_on_past_64_bit_nanoseconds() {
    let mut s = TimerSlotRuntime::new(0, runtime_def("a", 0, 0, 3));
    s.start();
    let long = (u64::MAX as u128) * 4;
    assert!(s.can_tick(long));
    s.tick(long);
    s.tick(long);
    assert_eq!(s.elapsed, long * 2);
}
