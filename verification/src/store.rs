//! What the store writes and reads besides plain rows: the warning
//! settings as text entries, the built-in presets and dungeons, and the
//! renaming of old built-in preset names.

use vstd::prelude::*;
use crate::ids::{new_id, utc_now_rfc3339, utc_timestamp_text, uuid_v4_text};
use crate::commands::ocr::ClearUpdate;
use crate::models::character::DungeonDef;
use crate::models::config::WarnSettings;
use crate::models::preset::{PresetType, TimerPreset, TimerSlotDef};
use crate::timer::timer_engine::WarnConfig;
use crate::utils::text::{chars_of, decimal, digits_value, is_digit, parse_u32, parse_u32_spec, push_decimal, str_eq, text, unsigned_digits};

verus! {

/// `bool::from_str`: exactly `true` or `false`.
pub open spec fn parse_bool_spec(s: Seq<char>) -> Option<bool> {
    if s == "true"@ {
        Some(true)
    } else if s == "false"@ {
        Some(false)
    } else {
        None
    }
}

/// Parses `true` or `false`.
pub fn parse_bool(s: &str) -> (r: Option<bool>)
    ensures
        r == parse_bool_spec(s@),
{
    if str_eq(s, "true") {
        Some(true)
    } else if str_eq(s, "false") {
        Some(false)
    } else {
        None
    }
}

/// `true` or `false` as text.
pub open spec fn bool_text(b: bool) -> Seq<char> {
    if b { "true"@ } else { "false"@ }
}

/// The stored warning settings read back from their entries: a missing or
/// unreadable number of seconds is 10, a missing or unreadable switch is on,
/// and missing texts keep their defaults.
pub open spec fn settings_from(
    seconds: Option<Seq<char>>,
    enabled: Option<Seq<char>>,
    key: Option<Seq<char>>,
    repeat: Option<Seq<char>>,
) -> (u32, bool, Seq<char>, Seq<char>) {
    (
        match seconds {
            Some(v) => match parse_u32_spec(v) {
                Some(n) => n,
                None => 10,
            },
            None => 10,
        },
        match enabled {
            Some(v) => match parse_bool_spec(v) {
                Some(b) => b,
                None => true,
            },
            None => true,
        },
        match key {
            Some(v) => v,
            None => "soft_chime"@,
        },
        match repeat {
            Some(v) => v,
            None => "1"@,
        },
    )
}

/// The view of an optional string.
pub open spec fn opt_view(o: Option<String>) -> Option<Seq<char>> {
    match o {
        Some(s) => Some(s@),
        None => None,
    }
}

/// Reads the warning settings from the values stored under their keys.
pub fn get_warn_config(
    seconds: Option<String>,
    enabled: Option<String>,
    key: Option<String>,
    repeat: Option<String>,
) -> (s: WarnSettings)
    ensures
        (s.warn_seconds, s.warn_sound_enabled, s.warn_sound_key@, s.warn_sound_repeat@)
            == settings_from(opt_view(seconds), opt_view(enabled), opt_view(key), opt_view(repeat)),
{
    let mut s = WarnSettings::default_settings();
    match seconds {
        Some(v) => {
            let cs = chars_of(v.as_str());
            s.warn_seconds = match parse_u32(&cs) {
                Some(n) => n,
                None => 10,
            };
        },
        None => {},
    }
    match enabled {
        Some(v) => {
            s.warn_sound_enabled = match parse_bool(v.as_str()) {
                Some(b) => b,
                None => true,
            };
        },
        None => {},
    }
    match key {
        Some(v) => {
            s.warn_sound_key = v;
        },
        None => {},
    }
    match repeat {
        Some(v) => {
            s.warn_sound_repeat = v;
        },
        None => {},
    }
    s
}

/// The entries the warning settings are stored as, key and value.
pub open spec fn settings_entries(s: WarnSettings) -> Seq<(Seq<char>, Seq<char>)> {
    seq![
        ("warn_seconds"@, decimal(s.warn_seconds as nat)),
        ("warn_sound_enabled"@, bool_text(s.warn_sound_enabled)),
        ("warn_sound_key"@, s.warn_sound_key@),
        ("warn_sound_repeat"@, s.warn_sound_repeat@),
    ]
}

/// The entries the warning settings are stored as.
pub fn set_warn_config(s: &WarnSettings) -> (r: Vec<(String, String)>)
    ensures
        r@.len() == 4,
        forall|i: int| 0 <= i < 4 ==> (#[trigger] r@[i]).0@ == settings_entries(*s)[i].0 && r@[i].1@
            == settings_entries(*s)[i].1,
{
    let mut secs = String::new();
    push_decimal(&mut secs, s.warn_seconds as u64);
    let enabled = if s.warn_sound_enabled {
        text("true")
    } else {
        text("false")
    };
    let mut r: Vec<(String, String)> = Vec::new();
    r.push((text("warn_seconds"), secs));
    r.push((text("warn_sound_enabled"), enabled));
    r.push((text("warn_sound_key"), s.warn_sound_key.clone()));
    r.push((text("warn_sound_repeat"), s.warn_sound_repeat.clone()));
    r
}

/// The engine's warning configuration from the stored settings.
pub fn engine_warn_config(s: &WarnSettings) -> (c: WarnConfig)
    ensures
        c.sound_enabled == s.warn_sound_enabled,
        c.sound_key == s.warn_sound_key,
        c.sound_repeat == s.warn_sound_repeat,
{
    WarnConfig {
        sound_enabled: s.warn_sound_enabled,
        sound_key: s.warn_sound_key.clone(),
        sound_repeat: s.warn_sound_repeat.clone(),
    }
}

/// A decimal rendering is all digits, without a sign, of the number's value.
pub proof fn lemma_decimal_parses(n: nat)
    ensures
        decimal(n).len() > 0,
        forall|i: int| 0 <= i < decimal(n).len() ==> is_digit(#[trigger] decimal(n)[i]),
        digits_value(decimal(n)) == n,
        decimal(n)[0] != '+',
    decreases n,
{
    let d = decimal(n);
    let c = crate::utils::text::digit_char((n % 10) as int);
    assert(c as nat == 48 + n % 10);
    if n < 10 {
        assert(d.drop_last() =~= Seq::<char>::empty());
        assert(digits_value(Seq::<char>::empty()) == 0);
        assert(d.last() == c);
        assert(digits_value(d) == n);
    } else {
        lemma_decimal_parses(n / 10);
        assert(d.drop_last() =~= decimal(n / 10));
        assert(d.last() == c);
        assert(digits_value(d) == digits_value(decimal(n / 10)) * 10 + n % 10);
        assert forall|i: int| 0 <= i < d.len() implies is_digit(#[trigger] d[i]) by {
            if i < d.len() - 1 {
                assert(d[i] == decimal(n / 10)[i]);
            }
        }
    }
}

/// A number written in decimal reads back as itself.
pub proof fn lemma_u32_text_roundtrip(n: u32)
    ensures
        parse_u32_spec(decimal(n as nat)) == Some(n),
{
    lemma_decimal_parses(n as nat);
    assert(unsigned_digits(decimal(n as nat)) == decimal(n as nat));
}

/// What is written is read back: the warning settings stored as entries
/// and read from them are the same settings.
pub proof fn lemma_warn_settings_roundtrip(s: WarnSettings)
    ensures
        settings_from(
            Some(settings_entries(s)[0].1),
            Some(settings_entries(s)[1].1),
            Some(settings_entries(s)[2].1),
            Some(settings_entries(s)[3].1),
        ) == (s.warn_seconds, s.warn_sound_enabled, s.warn_sound_key@, s.warn_sound_repeat@),
{
    lemma_u32_text_roundtrip(s.warn_seconds);
    reveal_strlit("true");
    reveal_strlit("false");
    assert("false"@ != "true"@) by {
        assert("false"@.len() != "true"@.len());
    }
}

} // verus!

verus! {

/// What the first-run seeding of presets does.
#[derive(Debug, Clone, Copy, PartialEq, Eq, Structural)]
pub enum PresetSeeding {
    /// Seeding happened before: nothing to do.
    AlreadyDone,
    /// The store already holds presets: only record that seeding is done.
    MarkDone,
    /// Add the built-in presets, then record that seeding is done.
    Seed,
}

/// What the seeding of presets does, from the stored "seeded" flag (if any)
/// and the number of stored presets: nothing once the flag reads `true`,
/// otherwise seed an empty store and only mark a non-empty one.
pub open spec fn seeding_for(flag: Option<Seq<char>>, preset_count: int) -> PresetSeeding {
    if (flag matches Some(f) && parse_bool_spec(f) == Some(true)) {
        PresetSeeding::AlreadyDone
    } else if preset_count > 0 {
        PresetSeeding::MarkDone
    } else {
        PresetSeeding::Seed
    }
}

/// Built-in presets are seeded at most once, and never over a user's own:
/// marking or seeding writes the flag `true`, after which every later run
/// does nothing, whatever the store holds; and a store that holds presets
/// is never seeded, so presets the user deleted are not brought back once
/// any remain.
pub proof fn lemma_presets_seeded_once(preset_count: int, flag: Option<Seq<char>>)
    ensures
        seeding_for(Some("true"@), preset_count) == PresetSeeding::AlreadyDone,
        preset_count > 0 ==> seeding_for(flag, preset_count) != PresetSeeding::Seed,
{
}

/// What the seeding of presets does, from the stored "seeded" flag (if any)
/// and the number of stored presets.
pub fn preset_seeding(seeded_flag: Option<String>, preset_count: i64) -> (r: PresetSeeding)
    ensures
        r == seeding_for(opt_view(seeded_flag), preset_count as int),
{
    let seeded = match seeded_flag {
        Some(f) => match parse_bool(f.as_str()) {
            Some(b) => b,
            None => false,
        },
        None => false,
    };
    if seeded {
        PresetSeeding::AlreadyDone
    } else if preset_count > 0 {
        PresetSeeding::MarkDone
    } else {
        PresetSeeding::Seed
    }
}

/// A built-in single-timer preset.
fn builtin_single(
    name: &str,
    desc: &str,
    hint: &str,
    first: u32,
    loop_interval: u32,
    warn_seconds: u32,
    warn_text: &str,
) -> (p: TimerPreset)
    ensures
        uuid_v4_text(p.id@),
        p.name@ == name@,
        p.desc matches Some(d) && d@ == desc@,
        p.hint matches Some(h) && h@ == hint@,
        p.note is None,
        p.is_builtin,
        utc_timestamp_text(p.created_at@),
        utc_timestamp_text(p.updated_at@),
        single_timer(p.preset_type, first, loop_interval, warn_seconds, warn_text@),
{
    TimerPreset {
        id: new_id(),
        name: text(name),
        desc: Some(text(desc)),
        hint: Some(text(hint)),
        note: None,
        preset_type: PresetType::Single {
            first,
            loop_interval,
            followups: Vec::new(),
            warn_seconds,
            warn_text: Some(text(warn_text)),
            hotkey: None,
            bar_color: None,
            text_color: None,
        },
        created_at: utc_now_rfc3339(),
        updated_at: utc_now_rfc3339(),
        is_builtin: true,
    }
}

/// A built-in preset of independent slots.
fn builtin_multi(name: &str, desc: &str, hint: &str, slots: Vec<TimerSlotDef>) -> (p: TimerPreset)
    ensures
        uuid_v4_text(p.id@),
        p.name@ == name@,
        p.desc matches Some(d) && d@ == desc@,
        p.hint matches Some(h) && h@ == hint@,
        p.note is None,
        p.is_builtin,
        utc_timestamp_text(p.created_at@),
        utc_timestamp_text(p.updated_at@),
        p.preset_type == (PresetType::Multi { slots, sequential: false }),
{
    TimerPreset {
        id: new_id(),
        name: text(name),
        desc: Some(text(desc)),
        hint: Some(text(hint)),
        note: None,
        preset_type: PresetType::Multi { slots, sequential: false },
        created_at: utc_now_rfc3339(),
        updated_at: utc_now_rfc3339(),
        is_builtin: true,
    }
}

/// A single timer with these timings and warning text, no follow-ups, no
/// hotkey and default colours.
pub open spec fn single_timer(pt: PresetType, first: u32, loop_interval: u32, warn_seconds: u32, warn_text: Seq<char>) -> bool {
    match pt {
        PresetType::Single {
            first: f,
            loop_interval: l,
            followups,
            warn_seconds: w,
            warn_text: t,
            hotkey,
            bar_color,
            text_color,
        } => {
            &&& f == first
            &&& l == loop_interval
            &&& followups@.len() == 0
            &&& w == warn_seconds
            &&& t matches Some(tt) && tt@ == warn_text
            &&& hotkey is None
            &&& bar_color is None
            &&& text_color is None
        },
        _ => false,
    }
}

/// A built-in slot: these timings, warning text and hotkey, default colours.
pub open spec fn builtin_slot(d: TimerSlotDef, name: Seq<char>, first: u32, loop_interval: u32, warn_seconds: u32, warn_text: Seq<char>, hotkey: Seq<char>) -> bool {
    &&& uuid_v4_text(d.id@)
    &&& d.name@ == name
    &&& d.first == first
    &&& d.loop_interval == loop_interval
    &&& d.warn_seconds == warn_seconds
    &&& d.warn_text matches Some(t) && t@ == warn_text
    &&& d.hotkey matches Some(h) && h@ == hotkey
    &&& d.bar_color is None
    &&& d.text_color is None
}

fn make_builtin_slot(name: &str, first: u32, loop_interval: u32, warn_seconds: u32, warn_text: &str, hotkey: &str) -> (d: TimerSlotDef)
    ensures
        builtin_slot(d, name@, first, loop_interval, warn_seconds, warn_text@, hotkey@),
{
    TimerSlotDef {
        id: new_id(),
        name: text(name),
        first,
        loop_interval,
        warn_seconds,
        warn_text: Some(text(warn_text)),
        hotkey: Some(text(hotkey)),
        bar_color: None,
        text_color: None,
    }
}
/// The presets seeded on first run: the three single timers and the
/// three-slot timer of the classic Green Dragon nest.
pub fn seed_builtin_presets() -> (r: Vec<TimerPreset>)
    ensures
        r@.len() == 4,
        forall|i: int| 0 <= i < 4 ==> (#[trigger] r@[i]).is_builtin && uuid_v4_text(r@[i].id@) && r@[i].note is None
            && utc_timestamp_text(r@[i].created_at@) && utc_timestamp_text(r@[i].updated_at@),
        r@[0].name@ == "绿龙经典-第二关·全屏毒"@,
        r@[0].desc matches Some(d) && d@ == "45秒循环：集合→找旋风台子躲避全屏毒"@,
        r@[0].hint matches Some(h) && h@ == "BUFF剩30秒时退到中间台子集合"@,
        single_timer(r@[0].preset_type, 45, 45, 10, "准备集合找旋风！"@),
        r@[1].name@ == "绿龙经典-第三关·石化诅咒"@,
        r@[1].desc matches Some(d) && d@ == "首波60秒，之后45秒循环"@,
        r@[1].hint matches Some(h) && h@ == "吹飞后按S前进，每人分散躲不同石像"@,
        single_timer(r@[1].preset_type, 60, 45, 8, "准备分散躲石像！"@),
        r@[2].name@ == "绿龙经典-第四关·虫潮"@,
        r@[2].desc matches Some(d) && d@ == "45秒循环：集合→跳蘑菇躲避全屏虫群"@,
        r@[2].hint matches Some(h) && h@ == "BUFF剩30秒时向中间集中"@,
        single_timer(r@[2].preset_type, 45, 45, 10, "准备上蘑菇！"@),
        r@[3].name@ == "绿龙经典-第五关·卡拉翰"@,
        r@[3].desc matches Some(d) && d@ == "三个90秒独立计时：元气蛋/粪球/黑洞"@,
        r@[3].hint matches Some(h) && h@ == "给每个槽位绑一个快捷键"@,
        r@[3].preset_type matches PresetType::Multi { slots, sequential } && !sequential && slots@.len() == 3
            && builtin_slot(slots@[0], "元气蛋"@, 90, 90, 10, "元气蛋来了！"@, "F1"@)
            && builtin_slot(slots@[1], "粪球"@, 45, 45, 5, "粪球来了！"@, "F2"@)
            && builtin_slot(slots@[2], "黑洞"@, 60, 60, 5, "黑洞来了！"@, "F3"@),
{
    let mut r: Vec<TimerPreset> = Vec::new();
    r.push(builtin_single("绿龙经典-第二关·全屏毒", "45秒循环：集合→找旋风台子躲避全屏毒", "BUFF剩30秒时退到中间台子集合", 45, 45, 10, "准备集合找旋风！"));
    r.push(builtin_single("绿龙经典-第三关·石化诅咒", "首波60秒，之后45秒循环", "吹飞后按S前进，每人分散躲不同石像", 60, 45, 8, "准备分散躲石像！"));
    r.push(builtin_single("绿龙经典-第四关·虫潮", "45秒循环：集合→跳蘑菇躲避全屏虫群", "BUFF剩30秒时向中间集中", 45, 45, 10, "准备上蘑菇！"));
    let mut slots: Vec<TimerSlotDef> = Vec::new();
    slots.push(make_builtin_slot("元气蛋", 90, 90, 10, "元气蛋来了！", "F1"));
    slots.push(make_builtin_slot("粪球", 45, 45, 5, "粪球来了！", "F2"));
    slots.push(make_builtin_slot("黑洞", 60, 60, 5, "黑洞来了！", "F3"));
    r.push(builtin_multi("绿龙经典-第五关·卡拉翰", "三个90秒独立计时：元气蛋/粪球/黑洞", "给每个槽位绑一个快捷键", slots));
    r
}

/// The current name of a built-in preset that still has an old name.
pub open spec fn renamed_builtin(name: Seq<char>) -> Option<Seq<char>> {
    if name == "第二关·全屏毒"@ {
        Some("绿龙经典-第二关·全屏毒"@)
    } else if name == "第三关·石化诅咒"@ {
        Some("绿龙经典-第三关·石化诅咒"@)
    } else if name == "第四关·虫潮"@ {
        Some("绿龙经典-第四关·虫潮"@)
    } else if name == "卡拉翰·三机制"@ {
        Some("绿龙经典-第五关·卡拉翰"@)
    } else {
        None
    }
}

/// The current name of a built-in preset that still has an old name.
pub fn normalize_builtin_preset_name(name: &str) -> (r: Option<String>)
    ensures
        match renamed_builtin(name@) {
            Some(n) => r matches Some(s) && s@ == n,
            None => r is None,
        },
{
    if str_eq(name, "第二关·全屏毒") {
        Some(text("绿龙经典-第二关·全屏毒"))
    } else if str_eq(name, "第三关·石化诅咒") {
        Some(text("绿龙经典-第三关·石化诅咒"))
    } else if str_eq(name, "第四关·虫潮") {
        Some(text("绿龙经典-第四关·虫潮"))
    } else if str_eq(name, "卡拉翰·三机制") {
        Some(text("绿龙经典-第五关·卡拉翰"))
    } else {
        None
    }
}

/// Renames a built-in preset that still has an old name, marking it
/// updated now; says whether it did. User presets keep their names.
pub fn normalize_builtin_preset(preset: &mut TimerPreset) -> (changed: bool)
    ensures
        changed == (old(preset).is_builtin && renamed_builtin(old(preset).name@) is Some),
        changed ==> final(preset).name@ == renamed_builtin(old(preset).name@).unwrap()
            && *final(preset) == (TimerPreset {
                name: final(preset).name,
                updated_at: final(preset).updated_at,
                ..*old(preset)
            }) && utc_timestamp_text(final(preset).updated_at@),
        !changed ==> *final(preset) == *old(preset),
{
    if !preset.is_builtin {
        return false;
    }
    match normalize_builtin_preset_name(preset.name.as_str()) {
        Some(n) => {
            preset.name = n;
            preset.updated_at = utc_now_rfc3339();
            true
        },
        None => false,
    }
}

/// Renaming is done once: a current built-in name is not an old one, so a
/// renamed preset is left alone the next time.
pub proof fn lemma_renaming_is_final(name: Seq<char>)
    ensures
        renamed_builtin(name) matches Some(n) ==> renamed_builtin(n) is None,
{
    reveal_strlit("第二关·全屏毒");
    reveal_strlit("第三关·石化诅咒");
    reveal_strlit("第四关·虫潮");
    reveal_strlit("卡拉翰·三机制");
    reveal_strlit("绿龙经典-第二关·全屏毒");
    reveal_strlit("绿龙经典-第三关·石化诅咒");
    reveal_strlit("绿龙经典-第四关·虫潮");
    reveal_strlit("绿龙经典-第五关·卡拉翰");
    assert("第二关·全屏毒"@.len() == 7);
    assert("第三关·石化诅咒"@.len() == 8);
    assert("第四关·虫潮"@.len() == 6);
    assert("卡拉翰·三机制"@.len() == 7);
    assert("绿龙经典-第二关·全屏毒"@.len() == 12);
    assert("绿龙经典-第三关·石化诅咒"@.len() == 13);
    assert("绿龙经典-第四关·虫潮"@.len() == 11);
    assert("绿龙经典-第五关·卡拉翰"@.len() == 12);
}

fn builtin_dungeon(name: &str, short_name: &str, k0: &str, k1: &str) -> (d: DungeonDef)
    ensures
        uuid_v4_text(d.id@),
        d.name@ == name@,
        d.short_name@ == short_name@,
        d.keywords@.len() == 2,
        d.keywords@[0]@ == k0@,
        d.keywords@[1]@ == k1@,
        d.icon is None,
        d.max_clears == 1,
        d.reset_day == 6,
        d.reset_hour == 9,
        d.note is None,
        d.sort_order == 0,
{
    let mut kw: Vec<&str> = Vec::new();
    kw.push(k0);
    kw.push(k1);
    let d = DungeonDef::new(name, short_name, kw, 1);
    assert(crate::models::character::str_views(kw@)[0] == k0@);
    assert(crate::models::character::str_views(kw@)[1] == k1@);
    assert(crate::models::character::string_views(d.keywords@)[0] == d.keywords@[0]@);
    assert(crate::models::character::string_views(d.keywords@)[1] == d.keywords@[1]@);
    d
}

/// The name (also the short name) and the two keywords of the built-in
/// dungeon at position `i`.
pub open spec fn builtin_dungeon_entry(i: int) -> (Seq<char>, Seq<char>, Seq<char>) {
    if i == 0 {
        ("海龙(硬核)"@, "海龙"@, "硬核"@)
    } else if i == 1 {
        ("大主教(地狱)"@, "大主教"@, "地狱"@)
    } else if i == 2 {
        ("大主教（月卡）"@, "大主教"@, "月卡"@)
    } else if i == 3 {
        ("绿龙（小绿）"@, "绿龙"@, "小绿"@)
    } else if i == 4 {
        ("绿龙（经典）"@, "绿龙"@, "经典"@)
    } else if i == 5 {
        ("绿龙（硬核）"@, "绿龙"@, "硬核"@)
    } else {
        ("绿龙（月卡）"@, "绿龙"@, "月卡"@)
    }
}

/// `d` is the built-in dungeon at position `i`, whatever its display order:
/// a fresh id, the entry's names and keywords, one clear a week, reset on
/// Saturday at 9, no icon or note.
pub open spec fn seeded_dungeon(d: DungeonDef, i: int) -> bool {
    let (name, k0, k1) = builtin_dungeon_entry(i);
    &&& uuid_v4_text(d.id@)
    &&& d.name@ == name
    &&& d.short_name@ == name
    &&& d.keywords@.len() == 2
    &&& d.keywords@[0]@ == k0
    &&& d.keywords@[1]@ == k1
    &&& d.icon is None
    &&& d.max_clears == 1
    &&& d.reset_day == 6
    &&& d.reset_hour == 9
    &&& d.note is None
}

/// The dungeons seeded on first run, in display order.
pub fn seed_builtin_dungeon_defs() -> (r: Vec<DungeonDef>)
    ensures
        r@.len() == 7,
        forall|i: int| 0 <= i < 7 ==> seeded_dungeon(#[trigger] r@[i], i) && r@[i].sort_order == 0,
{
    let mut r: Vec<DungeonDef> = Vec::new();
    r.push(builtin_dungeon("海龙(硬核)", "海龙(硬核)", "海龙", "硬核"));
    r.push(builtin_dungeon("大主教(地狱)", "大主教(地狱)", "大主教", "地狱"));
    r.push(builtin_dungeon("大主教（月卡）", "大主教（月卡）", "大主教", "月卡"));
    r.push(builtin_dungeon("绿龙（小绿）", "绿龙（小绿）", "绿龙", "小绿"));
    r.push(builtin_dungeon("绿龙（经典）", "绿龙（经典）", "绿龙", "经典"));
    r.push(builtin_dungeon("绿龙（硬核）", "绿龙（硬核）", "绿龙", "硬核"));
    r.push(builtin_dungeon("绿龙（月卡）", "绿龙（月卡）", "绿龙", "月卡"));
    r
}

/// A clear record exists for character `c` and dungeon `d`.
pub open spec fn has_record(existing: Seq<(String, String)>, c: Seq<char>, d: Seq<char>) -> bool {
    exists|j: int| 0 <= j < existing.len() && (#[trigger] existing[j]).0@ == c && existing[j].1@ == d
}

/// The zero clear records that a new dungeon gets: one for each character,
/// in order, unless that character already has a record of it.
pub open spec fn dungeon_records(d: DungeonDef, cs: Seq<String>, existing: Seq<(String, String)>) -> Seq<
    (String, ClearUpdate),
>
    decreases cs.len(),
{
    if cs.len() == 0 {
        Seq::empty()
    } else {
        dungeon_records(d, cs.drop_last(), existing) + if has_record(existing, cs.last()@, d.id@) {
            Seq::empty()
        } else {
            seq![(cs.last(), ClearUpdate { dungeon_id: d.id, current_clears: 0, max_clears: d.max_clears })]
        }
    }
}

/// The zero clear records of several new dungeons, dungeon by dungeon.
pub open spec fn seed_records(ds: Seq<DungeonDef>, cs: Seq<String>, existing: Seq<(String, String)>) -> Seq<
    (String, ClearUpdate),
>
    decreases ds.len(),
{
    if ds.len() == 0 {
        Seq::empty()
    } else {
        seed_records(ds.drop_last(), cs, existing) + dungeon_records(ds.last(), cs, existing)
    }
}

/// What the first-run seeding of dungeons writes: the built-in dungeons in
/// display order, and the zero clear records of the existing characters.
pub struct DungeonSeeding {
    pub dungeons: Vec<DungeonDef>,
    /// Character id and the record to write for it.
    pub records: Vec<(String, ClearUpdate)>,
}

fn record_exists(existing: &Vec<(String, String)>, c: &String, d: &String) -> (b: bool)
    ensures
        b == has_record(existing@, c@, d@),
{
    let n = existing.len();
    let mut j: usize = 0;
    while j < n
        invariant
            n == existing@.len(),
            j <= n,
            forall|k: int| 0 <= k < j ==> !((#[trigger] existing@[k]).0@ == c@ && existing@[k].1@ == d@),
        decreases n - j,
    {
        if existing[j].0 == *c && existing[j].1 == *d {
            return true;
        }
        j = j + 1;
    }
    false
}

fn push_dungeon_records(
    d: &DungeonDef,
    cs: &Vec<String>,
    existing: &Vec<(String, String)>,
    out: &mut Vec<(String, ClearUpdate)>,
)
    ensures
        final(out)@ == old(out)@ + dungeon_records(*d, cs@, existing@),
{
    let ghost base = out@;
    let n = cs.len();
    let mut j: usize = 0;
    while j < n
        invariant
            n == cs@.len(),
            j <= n,
            out@ == base + dungeon_records(*d, cs@.take(j as int), existing@),
        decreases n - j,
    {
        assert(cs@.take(j + 1).drop_last() =~= cs@.take(j as int));
        if !record_exists(existing, &cs[j], &d.id) {
            out.push(
                (
                    cs[j].clone(),
                    ClearUpdate { dungeon_id: d.id.clone(), current_clears: 0, max_clears: d.max_clears },
                ),
            );
        }
        proof {
            assert(out@ =~= base + dungeon_records(*d, cs@.take(j + 1), existing@));
        }
        j = j + 1;
    }
    assert(cs@.take(n as int) =~= cs@);
}

/// The first-run seeding of dungeons: nothing when the store already holds
/// dungeons; otherwise the built-in dungeons with their display order, and
/// a zero clear record of each for every character that has none yet.
pub fn plan_dungeon_seeding(
    existing_dungeons: i64,
    character_ids: &Vec<String>,
    existing_records: &Vec<(String, String)>,
) -> (r: Option<DungeonSeeding>)
    ensures
        r is None <==> existing_dungeons > 0,
        r matches Some(p) ==> {
            &&& p.dungeons@.len() == 7
            &&& forall|i: int|
                0 <= i < 7 ==> seeded_dungeon(#[trigger] p.dungeons@[i], i) && p.dungeons@[i].sort_order == i
            &&& p.records@ == seed_records(p.dungeons@, character_ids@, existing_records@)
        },
{
    if existing_dungeons > 0 {
        return None;
    }
    let defs = seed_builtin_dungeon_defs();
    let mut dungeons: Vec<DungeonDef> = Vec::new();
    let mut records: Vec<(String, ClearUpdate)> = Vec::new();
    let mut i: usize = 0;
    while i < 7
        invariant
            defs@.len() == 7,
            forall|k: int| 0 <= k < 7 ==> seeded_dungeon(#[trigger] defs@[k], k),
            i <= 7,
            dungeons@.len() == i,
            forall|k: int|
                0 <= k < i ==> seeded_dungeon(#[trigger] dungeons@[k], k) && dungeons@[k].sort_order == k,
            records@ == seed_records(dungeons@, character_ids@, existing_records@),
        decreases 7 - i,
    {
        let mut d = defs[i].copy();
        d.sort_order = i as i32;
        assert(d.keywords@ == defs@[i as int].keywords@);
        assert(seeded_dungeon(defs@[i as int], i as int));
        push_dungeon_records(&d, character_ids, existing_records, &mut records);
        let ghost before = dungeons@;
        dungeons.push(d);
        proof {
            assert(dungeons@.drop_last() =~= before);
        }
        i = i + 1;
    }
    Some(DungeonSeeding { dungeons, records })
}

/// The zero record that a new dungeon gets for a character.
pub open spec fn zero_record(c: String, d: DungeonDef) -> (String, ClearUpdate) {
    (c, ClearUpdate { dungeon_id: d.id, current_clears: 0, max_clears: d.max_clears })
}

proof fn lemma_dungeon_records_fill_gaps(d: DungeonDef, cs: Seq<String>, existing: Seq<(String, String)>)
    ensures
        forall|k: int|
            0 <= k < dungeon_records(d, cs, existing).len() ==> exists|j: int|
                0 <= j < cs.len() && #[trigger] dungeon_records(d, cs, existing)[k] == zero_record(
                    cs[j],
                    d,
                ) && !has_record(existing, cs[j]@, d.id@),
        forall|j: int|
            0 <= j < cs.len() && !has_record(existing, (#[trigger] cs[j])@, d.id@) ==> dungeon_records(
                d,
                cs,
                existing,
            ).contains(zero_record(cs[j], d)),
    decreases cs.len(),
{
    if cs.len() > 0 {
        let p = cs.drop_last();
        lemma_dungeon_records_fill_gaps(d, p, existing);
        let r = dungeon_records(d, cs, existing);
        let rp = dungeon_records(d, p, existing);
        assert forall|k: int| 0 <= k < r.len() implies exists|j: int|
            0 <= j < cs.len() && #[trigger] r[k] == zero_record(cs[j], d) && !has_record(
                existing,
                cs[j]@,
                d.id@,
            ) by {
            if k < rp.len() {
                assert(r[k] == rp[k]);
                let j = choose|j: int|
                    0 <= j < p.len() && #[trigger] rp[k] == zero_record(p[j], d) && !has_record(
                        existing,
                        p[j]@,
                        d.id@,
                    );
                assert(cs[j] == p[j]);
            } else {
                assert(r[k] == zero_record(cs[cs.len() - 1], d));
            }
        }
        assert forall|j: int|
            0 <= j < cs.len() && !has_record(existing, (#[trigger] cs[j])@, d.id@) implies r.contains(
                zero_record(cs[j], d),
            ) by {
            if j < p.len() {
                assert(cs[j] == p[j]);
                let k = choose|k: int| 0 <= k < rp.len() && rp[k] == zero_record(p[j], d);
                assert(r[k] == rp[k]);
            } else {
                assert(r[r.len() - 1] == zero_record(cs[j], d));
            }
        }
    }
}

/// The clear records that seeding writes are the zero records of the new
/// dungeons for the characters that lack them: each written record is the
/// zero record of one new dungeon for one listed character with no record
/// of it yet, and every such pair gets one.
pub proof fn lemma_seeded_records_fill_gaps(ds: Seq<DungeonDef>, cs: Seq<String>, existing: Seq<(String, String)>)
    ensures
        forall|k: int|
            0 <= k < seed_records(ds, cs, existing).len() ==> exists|i: int, j: int|
                0 <= i < ds.len() && 0 <= j < cs.len() && #[trigger] seed_records(ds, cs, existing)[k]
                    == (cs[j], ClearUpdate {
                    dungeon_id: ds[i].id,
                    current_clears: 0,
                    max_clears: ds[i].max_clears,
                }) && !(exists|e: int|
                    0 <= e < existing.len() && (#[trigger] existing[e]).0@ == cs[j]@ && existing[e].1@
                        == ds[i].id@),
        forall|i: int, j: int|
            0 <= i < ds.len() && 0 <= j < cs.len() && !(exists|e: int|
                0 <= e < existing.len() && (#[trigger] existing[e]).0@ == cs[j]@ && existing[e].1@
                    == ds[i].id@) ==> seed_records(ds, cs, existing).contains(
                (#[trigger] cs[j], ClearUpdate {
                    dungeon_id: (#[trigger] ds[i]).id,
                    current_clears: 0,
                    max_clears: ds[i].max_clears,
                }),
            ),
    decreases ds.len(),
{
    if ds.len() > 0 {
        let p = ds.drop_last();
        let d = ds.last();
        lemma_seeded_records_fill_gaps(p, cs, existing);
        lemma_dungeon_records_fill_gaps(d, cs, existing);
        let r = seed_records(ds, cs, existing);
        let rp = seed_records(p, cs, existing);
        let rd = dungeon_records(d, cs, existing);
        assert(r == rp + rd);
        assert forall|k: int| 0 <= k < r.len() implies exists|i: int, j: int|
            0 <= i < ds.len() && 0 <= j < cs.len() && #[trigger] r[k] == (cs[j], ClearUpdate {
                dungeon_id: ds[i].id,
                current_clears: 0,
                max_clears: ds[i].max_clears,
            }) && !(exists|e: int|
                0 <= e < existing.len() && (#[trigger] existing[e]).0@ == cs[j]@ && existing[e].1@
                    == ds[i].id@) by {
            if k < rp.len() {
                assert(r[k] == rp[k]);
                let (i, j) = choose|i: int, j: int|
                    0 <= i < p.len() && 0 <= j < cs.len() && #[trigger] rp[k] == (cs[j], ClearUpdate {
                        dungeon_id: p[i].id,
                        current_clears: 0,
                        max_clears: p[i].max_clears,
                    }) && !(exists|e: int|
                        0 <= e < existing.len() && (#[trigger] existing[e]).0@ == cs[j]@
                            && existing[e].1@ == p[i].id@);
                assert(ds[i] == p[i]);
            } else {
                assert(r[k] == rd[k - rp.len()]);
                let j = choose|j: int|
                    0 <= j < cs.len() && #[trigger] rd[k - rp.len()] == zero_record(cs[j], d)
                        && !has_record(existing, cs[j]@, d.id@);
                assert(ds[ds.len() - 1] == d);
            }
        }
        assert forall|i: int, j: int|
            0 <= i < ds.len() && 0 <= j < cs.len() && !(exists|e: int|
                0 <= e < existing.len() && (#[trigger] existing[e]).0@ == cs[j]@ && existing[e].1@
                    == ds[i].id@) implies r.contains(
                (#[trigger] cs[j], ClearUpdate {
                    dungeon_id: (#[trigger] ds[i]).id,
                    current_clears: 0,
                    max_clears: ds[i].max_clears,
                }),
            ) by {
            if i < p.len() {
                assert(ds[i] == p[i]);
                let x = (cs[j], ClearUpdate { dungeon_id: p[i].id, current_clears: 0, max_clears: p[i].max_clears });
                assert(rp.contains(x));
                let k = choose|k: int| 0 <= k < rp.len() && rp[k] == x;
                assert(r[k] == rp[k]);
            } else {
                assert(ds[i] == d);
                assert(!has_record(existing, cs[j]@, d.id@));
                assert(rd.contains(zero_record(cs[j], d)));
                let k = choose|k: int| 0 <= k < rd.len() && rd[k] == zero_record(cs[j], d);
                assert(r[rp.len() + k] == rd[k]);
            }
        }
    }
}

} // verus!
