use dn_timer::commands::ocr::{check_sidecar_response, parse_clears};
use dn_timer::store::parse_bool;
use dn_timer::utils::sound::sound_file;
use dn_timer::utils::text::{chars_eq, chars_of, parse_u32, push_decimal, push_str, str_eq, string_of, trim_chars};
use dn_timer::utils::time::format_duration_ms;

fn chars(s: &str) -> Vec<char> {
    s.chars().collect()
}

#[test]
fn duration_formats_minutes_seconds_tenths() {
    assert_eq!(format_duration_ms(65432), "01:05.4");
    assert_eq!(format_duration_ms(0), "00:00.0");
    assert_eq!(format_duration_ms(999), "00:00.9");
    assert_eq!(format_duration_ms(59_999), "00:59.9");
    assert_eq!(format_duration_ms(600_000), "10:00.0");
    assert_eq!(format_duration_ms(6_000_000), "100:00.0");
}

#[test]
fn clears_are_read_before_the_slash() {
    assert_eq!(parse_clears("2/3"), 2);
    assert_eq!(parse_clears(" +7 /x"), 7);
    assert_eq!(parse_clears("5"), 5);
    assert_eq!(parse_clears("abc"), 0);
    assert_eq!(parse_clears(""), 0);
    assert_eq!(parse_clears("/3"), 0);
    assert_eq!(parse_clears("4294967296/9"), 0);
    assert_eq!(parse_clears("4294967295/9"), 4294967295);
    assert_eq!(parse_clears("-1/3"), 0);
}

#[test]
fn u32_parse_follows_from_str() {
    assert_eq!(parse_u32(&chars("0")), Some(0));
    assert_eq!(parse_u32(&chars("+12")), Some(12));
    assert_eq!(parse_u32(&chars("+")), None);
    assert_eq!(parse_u32(&chars("")), None);
    assert_eq!(parse_u32(&chars("1 2")), None);
    assert_eq!(parse_u32(&chars("007")), Some(7));
    for n in [0u32, 9, 10, 4242, u32::MAX] {
        assert_eq!(parse_u32(&chars(&n.to_string())), Some(n));
    }
}

#[test]
fn trim_removes_unicode_white_space_at_both_ends() {
    assert_eq!(string_of(&trim_chars(&chars("  a b \t\n"))), "a b");
    assert_eq!(string_of(&trim_chars(&chars("\u{3000}x\u{00A0}"))), "x");
    assert!(trim_chars(&chars(" \t ")).is_empty());
    for s in ["", "  x", "y  ", " z z ", "\u{2003}w"] {
        assert_eq!(string_of(&trim_chars(&chars(s))), s.trim());
    }
}

#[test]
fn booleans_parse_exactly() {
    assert_eq!(parse_bool("true"), Some(true));
    assert_eq!(parse_bool("false"), Some(false));
    assert_eq!(parse_bool("True"), None);
    assert_eq!(parse_bool(""), None);
}

#[test]
fn small_text_helpers() {
    let mut s = String::from("n=");
    push_decimal(&mut s, 1234567890123);
    assert_eq!(s, "n=1234567890123");
    push_str(&mut s, "；好");
    assert_eq!(s, "n=1234567890123；好");
    assert!(str_eq("绿龙", "绿龙"));
    assert!(!str_eq("绿龙", "绿"));
    assert!(chars_eq(&chars("abc"), "abc"));
    assert!(!chars_eq(&chars("abc"), "abd"));
    assert_eq!(chars_of("héllo").len(), 5);
}

#[test]
fn sound_keys_name_their_files() {
    assert_eq!(sound_file("soft_chime").as_deref(), Some("sounds/soft_chime.wav"));
    assert_eq!(sound_file("digital_ping").as_deref(), Some("sounds/digital_ping.wav"));
    assert_eq!(sound_file("urgent_alarm").as_deref(), Some("sounds/urgent_alarm.wav"));
    assert_eq!(sound_file("emergency_triple").as_deref(), Some("sounds/emergency_triple.wav"));
    assert_eq!(sound_file("bell").as_deref(), Some("sounds/bell.wav"));
    assert_eq!(sound_file("gong"), None);
}

#[test]
fn sidecar_lines_are_trimmed_and_empty_ones_refused() {
    assert_eq!(check_sidecar_response("  {\"success\":true}\r\n"), Ok("{\"success\":true}".to_string()));
    assert_eq!(check_sidecar_response(" \n"), Err("Empty response from sidecar".to_string()));
}
