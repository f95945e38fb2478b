use dn_timer::commands::window::estimate_simple_mode_width;
use dn_timer::overlay::manager::{OverlayManager, OverlayToggle, WS_EX_LAYERED, WS_EX_TRANSPARENT};
use dn_timer::platform::screenshot::{bgra_buffer_len, capture_size, region_size};
use dn_timer::platform::window::{
    abs_i32, centre_fits, clamp_i32, cursor_fits, distances_fit, dock_frame_fits, inside_fits, restore_fits, snap_fits, dock_position, dock_side_from_cursor, is_docked, keep_window_inside_monitor,
    preview_position_from_cursor, restore_position_away_from_edge, snap_window_position,
    startup_command, startup_removal_ok, visible_position_from_cursor, DockSide, DockSnapshot,
    DockState, DragRelease, DragSession, Monitor, Position, Size,
};

const M: Monitor = Monitor { x: 0, y: 0, width: 1920, height: 1080 };

fn pos(x: i32, y: i32) -> Position {
    Position { x, y }
}

fn size(width: u32, height: u32) -> Size {
    Size { width, height }
}

#[test]
fn clamp_and_abs() {
    assert_eq!(clamp_i32(5, 0, 10), 5);
    assert_eq!(clamp_i32(-5, 0, 10), 0);
    assert_eq!(clamp_i32(50, 0, 10), 10);
    assert_eq!(clamp_i32(5, 10, 0), 0);
    assert_eq!(abs_i32(-7), 7);
    assert_eq!(abs_i32(i32::MAX), i32::MAX);
}

#[test]
fn docking_centres_the_tab_against_the_edge() {
    let p = pos(100, 200);
    let s = size(340, 500);
    assert_eq!(dock_position(M, p, s, DockSide::Left), pos(8, 419));
    assert_eq!(dock_position(M, p, s, DockSide::Right), pos(1850, 419));
    assert_eq!(dock_position(M, p, s, DockSide::Top), pos(239, 8));
    assert_eq!(dock_position(M, p, s, DockSide::Bottom), pos(239, 1010));
    let left_monitor = Monitor { x: -1920, y: 0, width: 1920, height: 1080 };
    assert_eq!(dock_position(left_monitor, pos(-1000, 100), s, DockSide::Left), pos(-1912, 319));
}

#[test]
fn preview_and_visible_tab_stay_on_the_monitor() {
    assert_eq!(preview_position_from_cursor(M, pos(1915, 5), DockSide::Right), pos(1850, 8));
    assert_eq!(preview_position_from_cursor(M, pos(600, 1079), DockSide::Bottom), pos(569, 1010));
    assert_eq!(visible_position_from_cursor(M, pos(500, 500)), pos(469, 469));
    assert_eq!(visible_position_from_cursor(M, pos(0, 2000)), pos(8, 1010));
}

#[test]
fn cursor_near_an_edge_picks_the_nearest_edge() {
    assert_eq!(dock_side_from_cursor(M, pos(10, 500)), Some(DockSide::Left));
    assert_eq!(dock_side_from_cursor(M, pos(1900, 540)), Some(DockSide::Right));
    assert_eq!(dock_side_from_cursor(M, pos(960, 1070)), Some(DockSide::Bottom));
    assert_eq!(dock_side_from_cursor(M, pos(960, 2)), Some(DockSide::Top));
    assert_eq!(dock_side_from_cursor(M, pos(960, 540)), None);
    assert_eq!(dock_side_from_cursor(M, pos(0, 0)), Some(DockSide::Left));
    assert_eq!(dock_side_from_cursor(M, pos(5, 3)), Some(DockSide::Top));
    assert_eq!(dock_side_from_cursor(M, pos(38, 500)), Some(DockSide::Left));
    assert_eq!(dock_side_from_cursor(M, pos(39, 500)), None);
    assert_eq!(dock_side_from_cursor(M, pos(-20, 500)), Some(DockSide::Left));
}

#[test]
fn dragged_window_snaps_to_close_edges() {
    let s = size(340, 500);
    assert_eq!(snap_window_position(M, pos(20, 300), s), pos(0, 300));
    assert_eq!(snap_window_position(M, pos(1570, 560), s), pos(1580, 580));
    assert_eq!(snap_window_position(M, pos(500, 300), s), pos(500, 300));
    assert_eq!(snap_window_position(M, pos(-28, -10), s), pos(0, 0));
}

#[test]
fn undocked_window_reappears_away_from_its_edge() {
    let s = size(340, 500);
    let snap = |side| DockSnapshot { side, position: pos(-20, 300), size: s };
    assert_eq!(restore_position_away_from_edge(M, snap(DockSide::Left)), pos(96, 300));
    assert_eq!(restore_position_away_from_edge(M, snap(DockSide::Right)), pos(1484, 300));
    assert_eq!(restore_position_away_from_edge(M, snap(DockSide::Top)), pos(8, 96));
    assert_eq!(restore_position_away_from_edge(M, snap(DockSide::Bottom)), pos(8, 484));
}

#[test]
fn window_is_kept_inside_the_monitor() {
    let s = size(340, 500);
    assert_eq!(keep_window_inside_monitor(M, pos(1700, -50), s), pos(1572, 8));
    assert_eq!(keep_window_inside_monitor(M, pos(300, 300), s), pos(300, 300));
    assert_eq!(keep_window_inside_monitor(M, pos(300, 300), size(2000, 1200)), pos(8, 8));
    let inside = keep_window_inside_monitor(M, pos(1700, -50), s);
    assert_eq!(keep_window_inside_monitor(M, inside, s), inside);
}

#[test]
fn dock_then_undock_restores_the_first_place() {
    let mut st = DockState::new();
    assert!(!is_docked(&st));
    let first = DockSnapshot { side: DockSide::Left, position: pos(100, 100), size: size(340, 500) };
    let second = DockSnapshot { side: DockSide::Top, position: pos(9, 9), size: size(62, 62) };
    st.set_pre_dock_always_on_top(true);
    st.begin_dock(first);
    st.mark_docked();
    assert!(is_docked(&st));
    st.begin_dock(second);
    assert_eq!(st.take_snapshot(), Some(first));
    assert_eq!(st.take_snapshot(), None);
    assert!(st.mark_undocked());
    assert!(!is_docked(&st));
}

#[test]
fn only_one_drag_at_a_time() {
    let mut st = DockState::new();
    assert!(st.try_begin_drag());
    assert!(!st.try_begin_drag());
    st.end_drag();
    assert!(st.try_begin_drag());
    st.remember(DockSnapshot { side: DockSide::Right, position: pos(1, 2), size: size(3, 4) });
    assert!(st.snapshot.is_some());
}

#[test]
fn drag_follows_cursor_previews_and_docks() {
    let mut d = DragSession::new(pos(100, 100), size(340, 500), pos(150, 110), true);
    assert_eq!((d.offset_x, d.offset_y), (50, 10));

    assert!(d.can_step(pos(600, 400), Some(M)));
    let step = d.step(pos(600, 400), Some(M), false);
    assert_eq!(step.preview_changed, None);
    assert_eq!(step.resize_to, None);
    assert_eq!(step.move_to, Some(pos(550, 390)));

    let step = d.step(pos(600, 400), Some(M), false);
    assert_eq!(step.move_to, None);

    let step = d.step(pos(10, 400), Some(M), false);
    assert_eq!(step.preview_changed, Some(true));
    assert_eq!(step.resize_to, Some(size(62, 62)));
    assert_eq!(step.move_to, Some(pos(8, 369)));

    match d.release(Some(M), false) {
        DragRelease::Dock(s) => {
            assert_eq!(s, DockSnapshot { side: DockSide::Left, position: pos(100, 100), size: size(340, 500) })
        }
        _ => panic!("expected a dock"),
    }
}

#[test]
fn leaving_the_edge_ends_the_preview() {
    let mut d = DragSession::new(pos(100, 100), size(340, 500), pos(150, 110), true);
    d.step(pos(10, 400), Some(M), false);
    let step = d.step(pos(600, 400), Some(M), false);
    assert_eq!(step.preview_changed, Some(false));
    assert_eq!(step.resize_to, Some(size(340, 500)));
    assert_eq!(step.move_to, Some(pos(550, 390)));
    assert!(matches!(d.release(Some(M), false), DragRelease::Nothing));
}

#[test]
fn preview_without_monitor_at_release_restores_the_window() {
    let mut d = DragSession::new(pos(100, 100), size(340, 500), pos(150, 110), true);
    d.step(pos(10, 400), Some(M), false);
    match d.release(None, false) {
        DragRelease::Restore { size: s, position } => {
            assert_eq!(s, size(340, 500));
            assert_eq!(position, pos(-40, 390));
        }
        _ => panic!("expected a restore"),
    }
}

#[test]
fn docked_tab_follows_cursor_and_never_redocks() {
    let mut d = DragSession::new(pos(8, 400), size(62, 62), pos(20, 420), false);
    let step = d.step(pos(500, 500), Some(M), true);
    assert_eq!(step.move_to, Some(pos(469, 469)));
    assert_eq!(step.preview_changed, None);
    assert!(matches!(d.release(Some(M), true), DragRelease::Nothing));
}

#[test]
fn startup_entry_is_the_quoted_path() {
    assert_eq!(startup_command("C:\\Program Files\\dn-timer.exe"), "\"C:\\Program Files\\dn-timer.exe\"");
    assert!(startup_removal_ok(0));
    assert!(startup_removal_ok(2));
    assert!(!startup_removal_ok(5));
}

#[test]
fn overlay_styles_and_toggle() {
    assert_eq!(OverlayManager::set_click_through(0x100, true), 0x100 | WS_EX_TRANSPARENT);
    assert_eq!(OverlayManager::set_click_through(0x100 | WS_EX_TRANSPARENT, false), 0x100);
    assert_eq!(OverlayManager::create_overlay_style(0x8), 0x8 | WS_EX_TRANSPARENT | WS_EX_LAYERED);
    assert_eq!(OverlayManager::toggle_overlay(false, false), OverlayToggle::Create);
    assert_eq!(OverlayManager::toggle_overlay(true, true), OverlayToggle::Hide);
    assert_eq!(OverlayManager::toggle_overlay(true, false), OverlayToggle::Show);
}

#[test]
fn click_through_toggles_back() {
    let style = 0x0004_0000 | WS_EX_LAYERED;
    let on = OverlayManager::set_click_through(style, true);
    assert_eq!(OverlayManager::set_click_through(on, false), style);
}

#[test]
fn overlay_snaps_near_screen_edges() {
    let screen = size(1920, 1080);
    let win = size(300, 200);
    assert_eq!(OverlayManager::snap_position(pos(10, 500), win, screen), Some(pos(0, 500)));
    assert_eq!(OverlayManager::snap_position(pos(1610, 870), win, screen), Some(pos(1620, 880)));
    assert_eq!(OverlayManager::snap_position(pos(500, 500), win, screen), None);
}

#[test]
fn capture_sizes() {
    assert_eq!(capture_size(10, 20, 110, 70), Some((100, 50)));
    assert_eq!(capture_size(10, 20, 10, 70), None);
    assert_eq!(capture_size(10, 20, 5, 70), None);
    assert_eq!(bgra_buffer_len(100, 50), 20000);
    assert_eq!(region_size(640, 480), Some((640, 480)));
    assert_eq!(region_size(0, 480), None);
    assert_eq!(region_size(640, -1), None);
}

#[test]
fn compact_width_fits_the_longest_name() {
    assert_eq!(estimate_simple_mode_width(&vec![]), 430);
    assert_eq!(estimate_simple_mode_width(&vec!["abc".to_string()]), 430);
    let names = vec!["元气蛋".to_string(), "a much longer slot name".to_string()];
    assert_eq!(estimate_simple_mode_width(&names), 330 + 23 * 7);
    let mixed = vec!["黑洞黑洞黑洞黑洞黑洞 x".to_string()];
    assert_eq!(estimate_simple_mode_width(&mixed), 330 + 10 * 13 + 2 * 7);
    assert_eq!(estimate_simple_mode_width(&vec!["x".repeat(100)]), 760);
    assert_eq!(estimate_simple_mode_width(&vec!["界".repeat(100_000)]), 760);
}

#[test]
fn range_checks_accept_ordinary_screens_and_refuse_extremes() {
    let s = size(340, 500);
    assert!(dock_frame_fits(M));
    assert!(!dock_frame_fits(Monitor { x: i32::MAX - 100, y: 0, width: 1920, height: 1080 }));
    assert!(centre_fits(pos(100, 100), s));
    assert!(!centre_fits(pos(i32::MAX - 10, 100), s));
    assert!(cursor_fits(pos(0, 0)));
    assert!(!cursor_fits(pos(i32::MIN, 0)));
    assert!(distances_fit(M, pos(500, 500)));
    assert!(!distances_fit(M, pos(i32::MIN, 500)));
    assert!(snap_fits(M, pos(10, 10), s));
    assert!(!snap_fits(M, pos(i32::MAX - 100, 10), s));
    let snap = DockSnapshot { side: DockSide::Left, position: pos(0, 0), size: s };
    assert!(restore_fits(M, snap));
    assert!(!restore_fits(Monitor { x: i32::MAX - 50, y: 0, width: 10, height: 10 }, snap));
    assert!(inside_fits(M, s));
    assert!(!inside_fits(Monitor { x: i32::MIN, y: 0, width: 0, height: 0 }, size(u32::MAX, 10)));
    let d = DragSession::new(pos(100, 100), s, pos(150, 110), true);
    assert!(d.can_release(Some(M)));
    assert!(d.can_release(None));
    assert!(OverlayManager::snap_fits(pos(10, 10), size(300, 200), size(1920, 1080)));
    assert!(!OverlayManager::snap_fits(pos(i32::MAX, 10), size(300, 200), size(1920, 1080)));
}

#[test]
fn docking_flag_follows_the_last_completed_dock_or_undock() {
    let mut st = DockState::new();
    let snap = DockSnapshot { side: DockSide::Right, position: pos(5, 5), size: size(340, 500) };
    st.begin_dock(snap);
    assert!(!is_docked(&st));
    st.mark_docked();
    assert!(is_docked(&st));
    st.take_snapshot();
    assert!(is_docked(&st));
    st.mark_undocked();
    st.try_begin_drag();
    st.remember(snap);
    st.end_drag();
    assert!(!is_docked(&st));
}
