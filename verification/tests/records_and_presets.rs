use dn_timer::commands::character::{add_character, add_dungeon_def, find_dungeon_by_id, update_clear_record, update_dungeon_def};
use dn_timer::commands::ocr::{clear_updates, dungeon_goes_by, find_character, find_dungeon, recognize_cd, CharacterTarget};
use dn_timer::commands::preset::{
    apply_slot_config, collect_hotkeys, copy_slot_defs, create_preset, delete_preset, find_preset, next_preset,
    select_preset, update_preset, update_preset_at,
};
use dn_timer::ids::{new_id, utc_now_rfc3339};
use dn_timer::models::character::{Character, DungeonDef};
use dn_timer::models::config::WarnSettings;
use dn_timer::models::ocr::{DungeonCdItem, OcrResult};
use dn_timer::models::preset::{PresetRequest, PresetType, TimerPreset, TimerSlotDef};
use dn_timer::store::{
    engine_warn_config, get_warn_config, normalize_builtin_preset, normalize_builtin_preset_name, seed_builtin_dungeon_defs, seed_builtin_presets,
    set_warn_config,
};
use dn_timer::store::{plan_dungeon_seeding, preset_seeding, PresetSeeding};
use dn_timer::timer::scheduler::{due_dungeons, reset_key, SchedulerState};

fn slot(id: &str, hotkey: Option<&str>) -> TimerSlotDef {
    TimerSlotDef {
        id: id.to_string(),
        name: id.to_string(),
        first: 10,
        loop_interval: 10,
        warn_seconds: 3,
        warn_text: None,
        hotkey: hotkey.map(|h| h.to_string()),
        bar_color: Some("#111".to_string()),
        text_color: None,
    }
}

fn single(hotkey: Option<&str>) -> PresetType {
    PresetType::Single {
        first: 60,
        loop_interval: 45,
        followups: vec![],
        warn_seconds: 8,
        warn_text: Some("go".to_string()),
        hotkey: hotkey.map(|h| h.to_string()),
        bar_color: None,
        text_color: Some("#fff".to_string()),
    }
}

fn preset(id: &str, pt: PresetType) -> TimerPreset {
    TimerPreset {
        id: id.to_string(),
        name: format!("preset {}", id),
        desc: None,
        hint: None,
        note: None,
        preset_type: pt,
        created_at: "2024-01-01T00:00:00+00:00".to_string(),
        updated_at: "2024-01-01T00:00:00+00:00".to_string(),
        is_builtin: false,
    }
}

fn dungeon(id: &str, name: &str, short: &str, keywords: &[&str], max: u32) -> DungeonDef {
    DungeonDef {
        id: id.to_string(),
        name: name.to_string(),
        short_name: short.to_string(),
        keywords: keywords.iter().map(|k| k.to_string()).collect(),
        icon: None,
        max_clears: max,
        reset_day: 6,
        reset_hour: 9,
        note: None,
        sort_order: 0,
    }
}

#[test]
fn ids_are_fresh_uuids() {
    let a = new_id();
    let b = new_id();
    assert_eq!(a.len(), 36);
    assert_ne!(a, b);
    assert_eq!(a.matches('-').count(), 4);
    let cs: Vec<char> = a.chars().collect();
    for (i, c) in cs.iter().enumerate() {
        if [8, 13, 18, 23].contains(&i) {
            assert_eq!(*c, '-');
        } else {
            assert!(c.is_ascii_digit() || ('a'..='f').contains(c));
        }
    }
    assert_eq!(cs[14], '4');
    assert!(['8', '9', 'a', 'b'].contains(&cs[19]));
    let t = utc_now_rfc3339();
    assert!(t.contains('T'));
    assert!(t.ends_with("+00:00"));
    assert!(t.len() >= 25);
}

#[test]
fn warn_settings_default_when_missing_or_unreadable() {
    let s = get_warn_config(None, None, None, None);
    assert_eq!(s.warn_seconds, 10);
    assert!(s.warn_sound_enabled);
    assert_eq!(s.warn_sound_key, "soft_chime");
    assert_eq!(s.warn_sound_repeat, "1");
    let s = get_warn_config(Some("x".to_string()), Some("yes".to_string()), Some("bell".to_string()), Some("3".to_string()));
    assert_eq!(s.warn_seconds, 10);
    assert!(s.warn_sound_enabled);
    assert_eq!(s.warn_sound_key, "bell");
    assert_eq!(s.warn_sound_repeat, "3");
    let d = WarnSettings::default_settings();
    assert_eq!(d.warn_seconds, 10);
}

#[test]
fn warn_settings_read_back_what_was_written() {
    let s = WarnSettings {
        warn_seconds: 4294967295,
        warn_sound_enabled: false,
        warn_sound_key: "urgent_alarm".to_string(),
        warn_sound_repeat: "continuous".to_string(),
    };
    let entries = set_warn_config(&s);
    let keys: Vec<&str> = entries.iter().map(|(k, _)| k.as_str()).collect();
    assert_eq!(keys, vec!["warn_seconds", "warn_sound_enabled", "warn_sound_key", "warn_sound_repeat"]);
    assert_eq!(entries[0].1, "4294967295");
    assert_eq!(entries[1].1, "false");
    let back = get_warn_config(
        Some(entries[0].1.clone()),
        Some(entries[1].1.clone()),
        Some(entries[2].1.clone()),
        Some(entries[3].1.clone()),
    );
    assert_eq!(back.warn_seconds, s.warn_seconds);
    assert_eq!(back.warn_sound_enabled, s.warn_sound_enabled);
    assert_eq!(back.warn_sound_key, s.warn_sound_key);
    assert_eq!(back.warn_sound_repeat, s.warn_sound_repeat);
    let c = engine_warn_config(&s);
    assert!(!c.sound_enabled);
    assert_eq!(c.sound_key, "urgent_alarm");
    assert_eq!(c.sound_repeat, "continuous");
}

#[test]
fn builtin_presets_are_seeded_in_order() {
    let ps = seed_builtin_presets();
    assert_eq!(ps.len(), 4);
    assert!(ps.iter().all(|p| p.is_builtin && p.id.len() == 36));
    assert_eq!(ps[0].name, "绿龙经典-第二关·全屏毒");
    assert_eq!(ps[3].name, "绿龙经典-第五关·卡拉翰");
    match &ps[1].preset_type {
        PresetType::Single { first, loop_interval, warn_seconds, warn_text, .. } => {
            assert_eq!((*first, *loop_interval, *warn_seconds), (60, 45, 8));
            assert_eq!(warn_text.as_deref(), Some("准备分散躲石像！"));
        }
        _ => panic!("expected a single timer"),
    }
    match &ps[3].preset_type {
        PresetType::Multi { slots, sequential } => {
            assert!(!sequential);
            let hotkeys: Vec<&str> = slots.iter().map(|s| s.hotkey.as_deref().unwrap()).collect();
            assert_eq!(hotkeys, vec!["F1", "F2", "F3"]);
            assert_eq!(slots[1].first, 45);
        }
        _ => panic!("expected slots"),
    }
}

#[test]
fn old_builtin_names_are_renamed() {
    assert_eq!(normalize_builtin_preset_name("第二关·全屏毒").as_deref(), Some("绿龙经典-第二关·全屏毒"));
    assert_eq!(normalize_builtin_preset_name("卡拉翰·三机制").as_deref(), Some("绿龙经典-第五关·卡拉翰"));
    assert_eq!(normalize_builtin_preset_name("绿龙经典-第二关·全屏毒"), None);
}

#[test]
fn builtin_dungeons_are_seeded_in_order() {
    let ds = seed_builtin_dungeon_defs();
    assert_eq!(ds.len(), 7);
    assert_eq!(ds[0].name, "海龙(硬核)");
    assert_eq!(ds[6].keywords, vec!["绿龙".to_string(), "月卡".to_string()]);
    assert!(ds.iter().all(|d| d.max_clears == 1 && d.reset_day == 6 && d.reset_hour == 9));
    let green = find_dungeon(&ds, &"绿龙".to_string());
    assert_eq!(green, Some(3));
}

#[test]
fn selecting_a_single_preset_loads_one_slot() {
    let p = preset("p1", single(Some("F5")));
    let sel = select_preset(&p);
    assert_eq!(sel.preset_id, "p1");
    assert_eq!(sel.slots.len(), 1);
    assert_eq!(sel.slots[0].id, "p1");
    assert_eq!(sel.slots[0].name, "preset p1");
    assert_eq!(sel.slots[0].first, 60);
    assert_eq!(sel.slots[0].text_color.as_deref(), Some("#fff"));
    assert_eq!(sel.hotkeys, vec!["F5".to_string()]);
}

#[test]
fn selecting_a_multi_preset_loads_its_slots() {
    let p = preset("p2", PresetType::Multi { slots: vec![slot("a", Some("F1")), slot("b", None), slot("c", Some("F1"))], sequential: false });
    let sel = select_preset(&p);
    assert_eq!(sel.slots.len(), 3);
    assert_eq!(sel.slots[2].id, "c");
    assert_eq!(sel.hotkeys, vec!["F1".to_string(), "F1".to_string()]);
    assert_eq!(collect_hotkeys(&vec![slot("x", None)]).len(), 0);
    assert_eq!(copy_slot_defs(&sel.slots).len(), 3);
}

#[test]
fn next_preset_cycles_through_the_list() {
    let ps = vec![preset("a", single(None)), preset("b", single(None)), preset("c", single(None))];
    assert_eq!(next_preset(&ps, &Some("a".to_string())).as_deref(), Some("b"));
    assert_eq!(next_preset(&ps, &Some("c".to_string())).as_deref(), Some("a"));
    assert_eq!(next_preset(&ps, &Some("zz".to_string())).as_deref(), Some("a"));
    assert_eq!(next_preset(&ps, &None).as_deref(), Some("a"));
    assert_eq!(next_preset(&vec![], &Some("a".to_string())), None);
    assert_eq!(find_preset(&ps, &"b".to_string()), Some(1));
    assert_eq!(find_preset(&ps, &"q".to_string()), None);
}

#[test]
fn deleting_the_selected_preset_clears_the_selection() {
    assert!(delete_preset(&Some("a".to_string()), "a"));
    assert!(!delete_preset(&Some("a".to_string()), "b"));
    assert!(!delete_preset(&None, "a"));
}

#[test]
fn create_and_update_preset() {
    let p = create_preset(PresetRequest { name: "mine".to_string(), desc: Some("d".to_string()), preset_type: single(None) });
    assert_eq!(p.name, "mine");
    assert_eq!(p.desc.as_deref(), Some("d"));
    assert_eq!(p.id.len(), 36);
    assert!(!p.is_builtin);
    assert_eq!(p.created_at, p.updated_at);
    let mut q = preset("p", single(None));
    update_preset_at(&mut q, PresetRequest { name: "renamed".to_string(), desc: None, preset_type: PresetType::Multi { slots: vec![], sequential: true } }, "2025-05-05T00:00:00+00:00".to_string());
    assert_eq!(q.id, "p");
    assert_eq!(q.name, "renamed");
    assert_eq!(q.updated_at, "2025-05-05T00:00:00+00:00");
    assert_eq!(q.created_at, "2024-01-01T00:00:00+00:00");
    assert!(matches!(q.preset_type, PresetType::Multi { sequential: true, .. }));
    update_preset(&mut q, PresetRequest { name: "again".to_string(), desc: Some("x".to_string()), preset_type: single(None) });
    assert_eq!(q.name, "again");
    assert_eq!(q.id, "p");
    assert_ne!(q.updated_at, "2025-05-05T00:00:00+00:00");
    assert_eq!(q.created_at, "2024-01-01T00:00:00+00:00");
}

#[test]
fn slot_config_sets_hotkey_and_given_colours() {
    let mut p = preset("m", PresetType::Multi { slots: vec![slot("a", Some("F1")), slot("b", Some("F2"))], sequential: false });
    assert_eq!(apply_slot_config(&mut p, 1, None, None, Some("#0f0".to_string())), Ok(()));
    match &p.preset_type {
        PresetType::Multi { slots, .. } => {
            assert_eq!(slots[1].hotkey, None);
            assert_eq!(slots[1].bar_color.as_deref(), Some("#111"));
            assert_eq!(slots[1].text_color.as_deref(), Some("#0f0"));
            assert_eq!(slots[0].hotkey.as_deref(), Some("F1"));
        }
        _ => panic!("expected slots"),
    }
    assert_eq!(apply_slot_config(&mut p, 2, Some("F3".to_string()), None, None), Err("Slot index out of range".to_string()));
}

#[test]
fn single_preset_has_only_slot_zero() {
    let mut p = preset("s", single(Some("F1")));
    assert_eq!(apply_slot_config(&mut p, 1, Some("F9".to_string()), None, None), Err("Slot index out of range".to_string()));
    assert!(matches!(&p.preset_type, PresetType::Single { hotkey: Some(h), .. } if h == "F1"));
    assert_eq!(apply_slot_config(&mut p, 0, Some("F9".to_string()), Some("#123".to_string()), None), Ok(()));
    match &p.preset_type {
        PresetType::Single { hotkey, bar_color, text_color, first, .. } => {
            assert_eq!(hotkey.as_deref(), Some("F9"));
            assert_eq!(bar_color.as_deref(), Some("#123"));
            assert_eq!(text_color.as_deref(), Some("#fff"));
            assert_eq!(*first, 60);
        }
        _ => panic!("expected a single timer"),
    }
}

#[test]
fn new_dungeon_from_the_form() {
    let d = add_dungeon_def("海龙", "海", 3, None, None, None);
    assert_eq!((d.reset_day, d.reset_hour), (6, 9));
    assert!(d.keywords.is_empty());
    assert_eq!(d.max_clears, 3);
    let d = add_dungeon_def("x", "y", 1, Some(9), Some(30), Some("n".to_string()));
    assert_eq!((d.reset_day, d.reset_hour), (6, 23));
    assert_eq!(d.note.as_deref(), Some("n"));
    let d = add_dungeon_def("x", "y", 1, Some(2), Some(4), None);
    assert_eq!((d.reset_day, d.reset_hour), (2, 4));
}

#[test]
fn editing_a_dungeon() {
    let mut ds = vec![dungeon("d1", "a", "a", &[], 2), dungeon("d2", "b", "b", &["k"], 1)];
    ds[1].icon = Some("icon.png".to_string());
    ds[1].sort_order = 5;
    let d = update_dungeon_def(&ds, "d2", "大主教".to_string(), "主教".to_string(), 0, 7, 24, None).ok().unwrap();
    assert_eq!(d.id, "d2");
    assert_eq!(d.keywords, vec!["大主教".to_string(), "主教".to_string()]);
    assert_eq!(d.max_clears, 1);
    assert_eq!((d.reset_day, d.reset_hour), (6, 23));
    assert_eq!(d.icon.as_deref(), Some("icon.png"));
    assert_eq!(d.sort_order, 5);
    assert_eq!(update_dungeon_def(&ds, "d9", "n".to_string(), "s".to_string(), 1, 1, 1, None).err(), Some("Dungeon not found".to_string()));
    assert_eq!(find_dungeon_by_id(&ds, "d2"), Some(1));
    assert_eq!(update_clear_record(&ds, "d1"), 2);
    assert_eq!(update_clear_record(&ds, "nope"), 1);
}

#[test]
fn new_character_starts_with_no_clears() {
    let ds = vec![dungeon("d1", "a", "a", &[], 2), dungeon("d2", "b", "b", &[], 1)];
    let (c, updates) = add_character("Rose", Some("S1"), None, &ds);
    assert_eq!(c.name, "Rose");
    assert_eq!(c.server.as_deref(), Some("S1"));
    assert_eq!(c.class_key, None);
    assert_eq!(updates.len(), 2);
    assert_eq!(updates[1].dungeon_id, "d2");
    assert_eq!(updates[1].current_clears, 0);
    assert_eq!(updates[1].max_clears, 1);
    let c2 = Character::new("Lily", None, Some("cleric"));
    assert_ne!(c.id, c2.id);
    assert_eq!(c2.class_key.as_deref(), Some("cleric"));
}

#[test]
fn recognised_items_update_matching_dungeons() {
    let ds = vec![dungeon("d1", "海龙(硬核)", "海龙", &["海龙", "硬核"], 1), dungeon("d2", "大主教", "主教", &[], 3)];
    assert!(dungeon_goes_by(&ds[0], &"硬核".to_string()));
    assert!(!dungeon_goes_by(&ds[1], &"硬核".to_string()));
    let items = vec![
        DungeonCdItem { name: "主教".to_string(), count: "2/3".to_string() },
        DungeonCdItem { name: "未知".to_string(), count: "1/1".to_string() },
        DungeonCdItem { name: "海龙".to_string(), count: "x".to_string() },
    ];
    let ups = clear_updates(&items, &ds);
    assert_eq!(ups.len(), 2);
    assert_eq!((ups[0].dungeon_id.as_str(), ups[0].current_clears, ups[0].max_clears), ("d2", 2, 3));
    assert_eq!((ups[1].dungeon_id.as_str(), ups[1].current_clears, ups[1].max_clears), ("d1", 0, 1));
}

#[test]
fn recognition_targets_known_or_new_character() {
    let ds = vec![dungeon("d1", "海龙", "海龙", &[], 1)];
    let chars = vec![Character::new("Rose", None, None)];
    let result = OcrResult {
        success: true,
        character_name: Some("Rose".to_string()),
        dungeon_cds: vec![DungeonCdItem { name: "海龙".to_string(), count: "1/1".to_string() }],
        error: None,
    };
    let plan = recognize_cd(&result, &chars, &ds);
    assert!(matches!(&plan.character, Some(CharacterTarget::Existing(id)) if *id == chars[0].id));
    assert_eq!(plan.updates.len(), 1);
    assert_eq!(plan.updates[0].current_clears, 1);
    assert_eq!(find_character(&chars, &"Rose".to_string()), Some(chars[0].id.clone()));

    let stranger = OcrResult { character_name: Some("Iris".to_string()), ..result };
    let plan = recognize_cd(&stranger, &chars, &ds);
    assert!(matches!(&plan.character, Some(CharacterTarget::Create(c)) if c.name == "Iris" && c.id.len() == 36));

    let failed = OcrResult { success: false, character_name: Some("Rose".to_string()), dungeon_cds: vec![], error: Some("e".to_string()) };
    let plan = recognize_cd(&failed, &chars, &ds);
    assert!(plan.character.is_none());
    assert!(plan.updates.is_empty());

    let nameless = OcrResult { success: true, character_name: None, dungeon_cds: vec![], error: None };
    assert!(recognize_cd(&nameless, &chars, &ds).character.is_none());
}

#[test]
fn weekly_reset_runs_once_per_hour() {
    let mut ds = vec![dungeon("d1", "a", "a", &[], 1), dungeon("d2", "b", "b", &[], 1), dungeon("d3", "c", "c", &[], 1)];
    ds[1].reset_day = 3;
    assert_eq!(due_dungeons(&ds, 6, 9), vec!["d1".to_string(), "d3".to_string()]);
    assert!(due_dungeons(&ds, 6, 10).is_empty());
    assert_eq!(reset_key("2024-06-01", 6, 9), "2024-06-01-6-9");

    let mut st = SchedulerState::new();
    assert!(st.check(5, 6, 9, "2024-06-01").is_none());
    let due = st.check(0, 6, 9, "2024-06-01").unwrap();
    assert_eq!((due.day, due.hour), (6, 9));
    assert_eq!(due.key, "2024-06-01-6-9");
    st.mark_handled(due.key);
    assert!(st.check(0, 6, 9, "2024-06-01").is_none());
    assert!(st.check(0, 6, 10, "2024-06-01").is_some());
}

#[test]
fn only_builtin_presets_with_old_names_are_renamed() {
    let mut p = preset("b", single(None));
    p.name = "第三关·石化诅咒".to_string();
    assert!(!normalize_builtin_preset(&mut p));
    assert_eq!(p.name, "第三关·石化诅咒");
    p.is_builtin = true;
    assert!(normalize_builtin_preset(&mut p));
    assert_eq!(p.name, "绿龙经典-第三关·石化诅咒");
    assert_eq!(p.id, "b");
    assert_eq!(p.created_at, "2024-01-01T00:00:00+00:00");
    assert_ne!(p.updated_at, "2024-01-01T00:00:00+00:00");
    assert!(!normalize_builtin_preset(&mut p));
}

#[test]
fn presets_are_seeded_once_into_an_empty_store() {
    assert_eq!(preset_seeding(None, 0), PresetSeeding::Seed);
    assert_eq!(preset_seeding(None, 3), PresetSeeding::MarkDone);
    assert_eq!(preset_seeding(Some("true".to_string()), 0), PresetSeeding::AlreadyDone);
    assert_eq!(preset_seeding(Some("false".to_string()), 0), PresetSeeding::Seed);
    assert_eq!(preset_seeding(Some("yes".to_string()), 2), PresetSeeding::MarkDone);
}

#[test]
fn dungeons_are_seeded_into_an_empty_store_with_zero_records() {
    assert!(plan_dungeon_seeding(3, &vec!["c1".to_string()], &vec![]).is_none());
    let plan = plan_dungeon_seeding(0, &vec!["c1".to_string(), "c2".to_string()], &vec![]).unwrap();
    assert_eq!(plan.dungeons.len(), 7);
    for (i, d) in plan.dungeons.iter().enumerate() {
        assert_eq!(d.sort_order, i as i32);
    }
    assert_eq!(plan.dungeons[3].name, "绿龙（小绿）");
    assert_eq!(plan.records.len(), 14);
    assert_eq!(plan.records[0].0, "c1");
    assert_eq!(plan.records[1].0, "c2");
    assert_eq!(plan.records[1].1.dungeon_id, plan.dungeons[0].id);
    assert_eq!(plan.records[13].1.dungeon_id, plan.dungeons[6].id);
    assert_eq!(plan.records[5].1.current_clears, 0);
    assert_eq!(plan.records[5].1.max_clears, 1);
    let empty = plan_dungeon_seeding(0, &vec![], &vec![("c1".to_string(), "d".to_string())]).unwrap();
    assert!(empty.records.is_empty());
}

#[test]
fn seeding_is_done_once_the_flag_is_set() {
    assert_eq!(preset_seeding(Some("true".to_string()), 0), PresetSeeding::AlreadyDone);
    assert_eq!(preset_seeding(Some("true".to_string()), 9), PresetSeeding::AlreadyDone);
    assert_ne!(preset_seeding(None, 1), PresetSeeding::Seed);
}
