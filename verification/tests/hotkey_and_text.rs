use er_overlay::config::resolve_configured_path;
use er_overlay::hotkey::{parse_hotkey, parse_overlay_key, OverlayKey};
use er_overlay::process::utf16_until_nul;
use er_overlay::text::{parse_u32, trim_str, u32_to_string};
use er_overlay::types::GameTime;

#[test]
fn parse_f8() {
    let hk = parse_hotkey("F8").unwrap();
    assert_eq!(hk.key, OverlayKey::F8);
    assert!(!hk.ctrl);
}

#[test]
fn parse_ctrl_shift_f1() {
    let hk = parse_hotkey("Ctrl+Shift+F1").unwrap();
    assert_eq!(hk.key, OverlayKey::F1);
    assert!(hk.ctrl);
    assert!(hk.shift);
    assert!(!hk.alt);
}

#[test]
fn parse_symbol_keys() {
    assert_eq!(parse_hotkey("=").unwrap().key, OverlayKey::Equal);
    assert_eq!(parse_hotkey("-").unwrap().key, OverlayKey::Minus);
    assert_eq!(parse_hotkey("comma").unwrap().key, OverlayKey::Comma);
    let hk = parse_hotkey("Ctrl+=").unwrap();
    assert_eq!(hk.key, OverlayKey::Equal);
    assert!(hk.ctrl);
}

#[test]
fn parse_invalid() {
    assert!(parse_hotkey("").is_none());
    assert!(parse_hotkey("Unknown").is_none());
    assert!(parse_hotkey("Ctrl+Alt").is_none());
}

#[test]
fn parse_hotkey_rejects_two_keys() {
    assert!(parse_hotkey("F1+F2").is_none());
}

#[test]
fn overlay_key_names_ignore_case() {
    assert_eq!(parse_overlay_key("f9"), Some(OverlayKey::F9));
    assert_eq!(parse_overlay_key("a"), Some(OverlayKey::A));
    assert_eq!("F3".parse::<OverlayKey>().ok(), Some(OverlayKey::F3));
    assert_eq!(parse_overlay_key("F13"), None);
}

#[test]
fn game_time_formatting() {
    let t = GameTime::from_ms(3_661_000);
    assert_eq!(t.format_hms(), "01:01:01");
}

#[test]
fn game_time_parts_and_long_runs() {
    let t = GameTime::from_ms(360_000_000 + 59_999);
    assert_eq!(t.hours(), 100);
    assert_eq!(t.minutes(), 0);
    assert_eq!(t.seconds(), 59);
    assert_eq!(t.format_hms(), "100:00:59");
    assert_eq!(GameTime::from_ms(0).format_hms(), "00:00:00");
}

#[test]
fn utf16_helper() {
    let buf = vec![b'e' as u16, b'r' as u16, 0, b'x' as u16];
    assert_eq!(utf16_until_nul(&buf), "er");
}

#[test]
fn utf16_without_nul_takes_everything() {
    let buf: Vec<u16> = "eldenring.exe".encode_utf16().collect();
    assert_eq!(utf16_until_nul(&buf), "eldenring.exe");
    assert_eq!(utf16_until_nul(&vec![0, 65]), "");
}

#[test]
fn utf16_pairs_combine_and_lone_surrogates_are_replaced() {
    // U+1F600 is the pair D83D DE00; a lone high surrogate before 'a' and a lone low surrogate
    // each become one U+FFFD.
    let buf: Vec<u16> = vec![0xD83D, 0xDE00, 0xD800, 0x61, 0xDC00, 0, 0x62];
    assert_eq!(utf16_until_nul(&buf), "\u{1F600}\u{FFFD}a\u{FFFD}");
}

#[test]
fn decimal_text_round_trips() {
    assert_eq!(u32_to_string(0), "0");
    assert_eq!(u32_to_string(4_294_967_295), "4294967295");
    assert_eq!(parse_u32(&"1034450100".chars().collect()), Some(1034450100));
    assert_eq!(parse_u32(&"4294967296".chars().collect()), None);
    assert_eq!(parse_u32(&"12a".chars().collect()), None);
    assert_eq!(trim_str("  x y \t"), vec!['x', ' ', 'y']);
}

#[test]
fn configured_paths_join_like_windows_paths() {
    assert_eq!(resolve_configured_path(Some("\\foo"), "C:\\base", "x"), "C:\\foo");
    assert_eq!(resolve_configured_path(Some("C:foo"), "C:\\base", "x"), "C:foo");
    assert_eq!(resolve_configured_path(Some("D:\\icons"), "C:\\base", "x"), "D:\\icons");
    assert_eq!(resolve_configured_path(Some("icons"), "C:\\base", "x"), "C:\\base/icons");
    assert_eq!(resolve_configured_path(Some("icons"), "C:\\base\\", "x"), "C:\\base\\icons");
    assert_eq!(resolve_configured_path(Some("icons"), "C:", "x"), "C:icons");
    assert_eq!(resolve_configured_path(Some("\\foo"), "\\\\srv\\share\\dir", "x"), "\\\\srv\\share\\foo");
    assert_eq!(resolve_configured_path(None, "ignored", "C:\\ov"), "C:\\ov/assets/icons");
}
