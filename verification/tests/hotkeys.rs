use dn_timer::commands::timer::{bound_slot_indices, pause_timer, start_timer, trigger_hotkey};
use dn_timer::models::preset::TimerSlotDef;
use dn_timer::platform::hotkey::{
    current_modifiers, format_hotkey, key_to_vk, keyboard_hook_fires, keyboard_hotkey, mouse_hotkey,
    parse_keyboard_hotkey, vk_to_string, KeyboardHook, RegisteredHotkeys, MOD_ALT, MOD_CONTROL, MOD_NOREPEAT,
    MOD_SHIFT, VK_F1, WM_LBUTTONDOWN, WM_MBUTTONDOWN, WM_RBUTTONDOWN, WM_XBUTTONDOWN,
};
use dn_timer::timer::timer_engine::EngineCommand;

fn bound_slot(id: &str, hotkey: Option<&str>) -> TimerSlotDef {
    TimerSlotDef {
        id: id.to_string(),
        name: id.to_string(),
        first: 30,
        loop_interval: 30,
        warn_seconds: 5,
        warn_text: None,
        hotkey: hotkey.map(|h| h.to_string()),
        bar_color: None,
        text_color: None,
    }
}

#[test]
fn key_names_map_to_virtual_keys() {
    assert_eq!(key_to_vk("A"), Some(0x41));
    assert_eq!(key_to_vk("Z"), Some(0x5A));
    assert_eq!(key_to_vk("7"), Some(0x37));
    assert_eq!(key_to_vk("F1"), Some(VK_F1));
    assert_eq!(key_to_vk("F12"), Some(VK_F1 + 11));
    assert_eq!(key_to_vk("Space"), Some(0x20));
    assert_eq!(key_to_vk("Enter"), Some(0x0D));
    assert_eq!(key_to_vk("Esc"), Some(0x1B));
    assert_eq!(key_to_vk("PageDown"), Some(0x22));
    assert_eq!(key_to_vk("a"), None);
    assert_eq!(key_to_vk("F13"), None);
    assert_eq!(key_to_vk(""), None);
}

#[test]
fn virtual_keys_map_back_to_names() {
    assert_eq!(vk_to_string(0x41).as_deref(), Some("A"));
    assert_eq!(vk_to_string(0x30).as_deref(), Some("0"));
    assert_eq!(vk_to_string(VK_F1 + 4).as_deref(), Some("F5"));
    assert_eq!(vk_to_string(0x2E).as_deref(), Some("Delete"));
    assert_eq!(vk_to_string(0x21).as_deref(), Some("PageUp"));
    assert_eq!(vk_to_string(0x10), None);
    for name in ["A", "M", "9", "F1", "F10", "Space", "Tab", "Backspace", "Left", "Home", "End", "Insert"] {
        let vk = key_to_vk(name).unwrap();
        assert_eq!(vk_to_string(vk).as_deref(), Some(name));
    }
}

#[test]
fn hotkey_text_joins_modifiers() {
    assert_eq!(format_hotkey(&vec![], "F1"), "F1");
    assert_eq!(format_hotkey(&vec!["Ctrl".to_string(), "Shift".to_string()], "A"), "Ctrl+Shift+A");
    let mods = current_modifiers(true, true, true);
    assert_eq!(mods, vec!["Ctrl".to_string(), "Alt".to_string(), "Shift".to_string()]);
    assert!(current_modifiers(false, false, false).is_empty());
    assert_eq!(current_modifiers(false, true, false), vec!["Alt".to_string()]);
}

#[test]
fn key_presses_become_hotkey_text() {
    assert_eq!(keyboard_hotkey(VK_F1, false, false, false).as_deref(), Some("F1"));
    assert_eq!(keyboard_hotkey(0x41, true, false, true).as_deref(), Some("Ctrl+Shift+A"));
    assert_eq!(keyboard_hotkey(0x10, true, false, false), None);
}

#[test]
fn mouse_presses_become_hotkey_text() {
    assert_eq!(mouse_hotkey(WM_MBUTTONDOWN, 0, false, false, false).as_deref(), Some("Middle"));
    assert_eq!(mouse_hotkey(WM_XBUTTONDOWN, 0x0001_0000, false, true, false).as_deref(), Some("Alt+XButton1"));
    assert_eq!(mouse_hotkey(WM_XBUTTONDOWN, 0x0002_0000, false, false, false).as_deref(), Some("XButton2"));
    assert_eq!(mouse_hotkey(WM_XBUTTONDOWN, 0x0003_0000, false, false, false), None);
    assert_eq!(mouse_hotkey(WM_LBUTTONDOWN, 0, true, false, false), None);
    assert_eq!(mouse_hotkey(WM_RBUTTONDOWN, 0, false, false, false), None);
    assert_eq!(mouse_hotkey(0x200, 0, false, false, false), None);
}

#[test]
fn keyboard_hook_fires_only_for_new_bound_unregistered_keys() {
    assert!(keyboard_hook_fires(true, true, false));
    assert!(!keyboard_hook_fires(false, true, false));
    assert!(!keyboard_hook_fires(true, false, false));
    assert!(!keyboard_hook_fires(true, true, true));
}

#[test]
fn hotkey_text_parses_into_registration() {
    assert_eq!(parse_keyboard_hotkey("F1"), Some((MOD_NOREPEAT, 0x70)));
    assert_eq!(
        parse_keyboard_hotkey("Ctrl+Shift+F2"),
        Some((MOD_NOREPEAT | MOD_CONTROL | MOD_SHIFT, 0x71))
    );
    assert_eq!(parse_keyboard_hotkey("Alt+5"), Some((MOD_NOREPEAT | MOD_ALT, 0x35)));
    assert_eq!(parse_keyboard_hotkey("A+Ctrl"), Some((MOD_NOREPEAT | MOD_CONTROL, 0x41)));
    assert_eq!(parse_keyboard_hotkey("A+B"), Some((MOD_NOREPEAT, 0x42)));
    assert_eq!(parse_keyboard_hotkey("Ctrl"), None);
    assert_eq!(parse_keyboard_hotkey("Ctrl+"), None);
    assert_eq!(parse_keyboard_hotkey("Middle"), None);
    assert_eq!(parse_keyboard_hotkey(""), None);
}

#[test]
fn pressed_key_text_registers_the_same_key() {
    for (vk, ctrl, alt, shift) in [(0x41, true, false, false), (VK_F1 + 2, false, true, true), (0x20, false, false, false)] {
        let text = keyboard_hotkey(vk, ctrl, alt, shift).unwrap();
        let (mods, key) = parse_keyboard_hotkey(&text).unwrap();
        assert_eq!(key, vk as u32);
        assert_eq!(mods & MOD_CONTROL != 0, ctrl);
        assert_eq!(mods & MOD_ALT != 0, alt);
        assert_eq!(mods & MOD_SHIFT != 0, shift);
    }
}

#[test]
fn registered_hotkeys_record_and_forget() {
    let mut r = RegisteredHotkeys::new();
    assert_eq!(r.next_id, 1);
    assert!(r.can_allocate());
    let a = r.allocate_id();
    r.record(a, "F1".to_string());
    let b = r.allocate_id();
    r.record(b, "Ctrl+A".to_string());
    assert_eq!((a, b), (1, 2));
    assert_eq!(r.get(1).as_deref(), Some("F1"));
    assert_eq!(r.get(2).as_deref(), Some("Ctrl+A"));
    assert_eq!(r.get(3), None);
    assert!(r.is_registered("Ctrl+A"));
    assert_eq!(r.registered_keys(), vec!["F1".to_string(), "Ctrl+A".to_string()]);
    let dropped = r.remove_missing(&vec!["Ctrl+A".to_string(), "F9".to_string()]);
    assert_eq!(dropped, vec![1]);
    assert!(!r.is_registered("F1"));
    assert_eq!(r.get(1), None);
    assert_eq!(r.get(2).as_deref(), Some("Ctrl+A"));
    assert_eq!(r.next_id, 3);
}

#[test]
fn exhausted_ids_cannot_be_allocated() {
    let r = RegisteredHotkeys { entries: Vec::new(), next_id: i32::MAX };
    assert!(!r.can_allocate());
}

#[test]
fn hotkey_with_one_slot_toggles_it() {
    let slots = vec![bound_slot("a", Some("F1")), bound_slot("b", Some("F2")), bound_slot("c", None)];
    assert!(matches!(trigger_hotkey(&slots, "F2"), Some(EngineCommand::ToggleSlot(1))));
    assert!(trigger_hotkey(&slots, "F3").is_none());
    assert_eq!(bound_slot_indices(&slots, "F1"), vec![0]);
}

#[test]
fn shared_hotkey_starts_in_batch() {
    let slots = vec![bound_slot("a", Some("F1")), bound_slot("b", Some("F2")), bound_slot("c", Some("F1"))];
    match trigger_hotkey(&slots, "F1") {
        Some(EngineCommand::StartSlotsBatch(v)) => assert_eq!(v, vec![0, 2]),
        _ => panic!("expected a batch start"),
    }
}

#[test]
fn start_and_pause_buttons_address_every_slot() {
    let slots = vec![bound_slot("a", None), bound_slot("b", None), bound_slot("c", None)];
    let starts = start_timer(&slots);
    assert_eq!(starts.len(), 3);
    for (i, c) in starts.iter().enumerate() {
        assert!(matches!(c, EngineCommand::StartSlot(j) if *j == i));
    }
    let pauses = pause_timer(&slots);
    assert_eq!(pauses.len(), 3);
    assert!(matches!(pauses[2], EngineCommand::PauseSlot(2)));
    assert!(start_timer(&vec![]).is_empty());
}

#[test]
fn auto_repeat_does_not_fire_again_until_key_up() {
    let mut hook = KeyboardHook::new();
    assert!(hook.key_down(0x70, true, false));
    assert!(!hook.key_down(0x70, true, false));
    assert!(hook.key_down(0x41, true, false));
    hook.key_up(0x70);
    assert!(hook.key_down(0x70, true, false));
    hook.key_up(0x70);
    assert!(!hook.key_down(0x70, false, false));
    hook.key_up(0x70);
    assert!(!hook.key_down(0x70, true, true));
}

#[test]
fn sync_claims_the_registrable_keys_in_turn() {
    let mut r = RegisteredHotkeys::new();
    let wanted = vec!["F1".to_string(), "Bogus".to_string(), "Middle".to_string(), "Ctrl+A".to_string()];
    assert_eq!(r.claim_next(&wanted, 0), Some((0, 1, MOD_NOREPEAT, 0x70)));
    r.record(1, "F1".to_string());
    assert_eq!(r.claim_next(&wanted, 1), Some((3, 2, MOD_NOREPEAT | MOD_CONTROL, 0x41)));
    r.record(2, "Ctrl+A".to_string());
    assert_eq!(r.claim_next(&wanted, 4), None);
    assert_eq!(r.claim_next(&wanted, 0), None);
    assert_eq!(r.next_id, 3);
    let mut full = RegisteredHotkeys { entries: Vec::new(), next_id: i32::MAX };
    assert_eq!(full.claim_next(&wanted, 0), None);
}

#[test]
fn modifiers_in_any_order_parse_back() {
    let mods = vec!["Shift".to_string(), "Ctrl".to_string()];
    let text = format_hotkey(&mods, "B");
    assert_eq!(text, "Shift+Ctrl+B");
    assert_eq!(parse_keyboard_hotkey(&text), Some((MOD_NOREPEAT | MOD_CONTROL | MOD_SHIFT, 0x42)));
    let mods = vec!["Alt".to_string(), "Alt".to_string()];
    assert_eq!(parse_keyboard_hotkey(&format_hotkey(&mods, "F3")), Some((MOD_NOREPEAT | MOD_ALT, 0x72)));
}

#[test]
fn a_whole_sync_keeps_ids_drops_unwanted_and_adds_accepted_keys() {
    let mut r = RegisteredHotkeys::new();
    let first = vec!["F1".to_string(), "F2".to_string()];
    let mut from = 0;
    while let Some((k, id, _, _)) = r.claim_next(&first, from) {
        r.record(id, first[k].clone());
        from = k + 1;
    }
    assert_eq!(r.get(1).as_deref(), Some("F1"));
    assert_eq!(r.get(2).as_deref(), Some("F2"));

    let wanted = vec!["F2".to_string(), "Ctrl+B".to_string(), "Middle".to_string(), "F4".to_string()];
    let accepted = [true, true, true, false];
    let dropped = r.remove_missing(&wanted);
    assert_eq!(dropped, vec![1]);
    let mut from = 0;
    while let Some((k, id, _, _)) = r.claim_next(&wanted, from) {
        if accepted[k] {
            r.record(id, wanted[k].clone());
        }
        from = k + 1;
    }
    assert_eq!(r.get(2).as_deref(), Some("F2"));
    assert_eq!(r.get(3).as_deref(), Some("Ctrl+B"));
    assert!(!r.is_registered("F1"));
    assert!(!r.is_registered("Middle"));
    assert!(!r.is_registered("F4"));
    assert_eq!(r.next_id, 5);
}
