use token_optimizer::hotkeys::{keys_match, parse_key, HotkeySpec, InputEvent, Key, ListenerState};

fn spec(key: Key, require_alt: bool, require_ctrl: bool) -> HotkeySpec {
    HotkeySpec { key, require_alt, require_ctrl }
}

#[test]
fn function_keys_one_to_twelve_have_names() {
    assert_eq!(parse_key("F1"), Some(Key::F1));
    assert_eq!(parse_key("F5"), Some(Key::F5));
    assert_eq!(parse_key("F10"), Some(Key::F10));
    assert_eq!(parse_key("F12"), Some(Key::F12));
}

#[test]
fn function_keys_thirteen_to_twenty_four_use_codes() {
    assert_eq!(parse_key("F13"), Some(Key::Unknown(124)));
    assert_eq!(parse_key("F14"), Some(Key::Unknown(125)));
    assert_eq!(parse_key("F24"), Some(Key::Unknown(135)));
}

#[test]
fn letters_map_to_letter_keys() {
    assert_eq!(parse_key("a"), Some(Key::KeyA));
    assert_eq!(parse_key("C"), Some(Key::KeyC));
    assert_eq!(parse_key("z"), Some(Key::KeyZ));
    assert_eq!(parse_key("F"), Some(Key::KeyF));
    assert_eq!(parse_key("q"), Some(Key::KeyQ));
}

#[test]
fn other_names_are_refused() {
    assert_eq!(parse_key("F0"), None);
    assert_eq!(parse_key("F25"), None);
    assert_eq!(parse_key("F01"), None);
    assert_eq!(parse_key("f14"), None);
    assert_eq!(parse_key("1"), None);
    assert_eq!(parse_key(""), None);
    assert_eq!(parse_key("é"), None);
    assert_eq!(parse_key("Esc"), None);
}

#[test]
fn readme_examples_parse() {
    assert_eq!(HotkeySpec::parse("F14"), Some(spec(Key::Unknown(125), false, false)));
    assert_eq!(HotkeySpec::parse("Alt+C"), Some(spec(Key::KeyC, true, false)));
    assert_eq!(HotkeySpec::parse("Ctrl+F13"), Some(spec(Key::Unknown(124), false, true)));
}

#[test]
fn modifiers_ignore_ascii_case_and_unknown_ones() {
    assert_eq!(HotkeySpec::parse("ALT+ctrl+x"), Some(spec(Key::KeyX, true, true)));
    assert_eq!(HotkeySpec::parse("shift+x"), Some(spec(Key::KeyX, false, false)));
    assert_eq!(HotkeySpec::parse("Ctrl+Alt+F2"), Some(spec(Key::F2, true, true)));
}

#[test]
fn key_name_is_trimmed_but_modifiers_are_not() {
    assert_eq!(HotkeySpec::parse("  F14\t"), Some(spec(Key::Unknown(125), false, false)));
    assert_eq!(HotkeySpec::parse("Alt + C"), Some(spec(Key::KeyC, false, false)));
    assert_eq!(HotkeySpec::parse("Alt+\u{3000}C\u{a0}"), Some(spec(Key::KeyC, true, false)));
}

#[test]
fn descriptions_without_a_key_are_refused() {
    assert_eq!(HotkeySpec::parse(""), None);
    assert_eq!(HotkeySpec::parse("Alt+"), None);
    assert_eq!(HotkeySpec::parse("+"), None);
    assert_eq!(HotkeySpec::parse("Alt+Ctrl"), None);
    assert_eq!(HotkeySpec::parse("F14+"), None);
}

#[test]
fn keys_match_compares_codes_and_names() {
    assert!(keys_match(&Key::Unknown(125), &Key::Unknown(125)));
    assert!(!keys_match(&Key::Unknown(125), &Key::Unknown(124)));
    assert!(keys_match(&Key::F3, &Key::F3));
    assert!(!keys_match(&Key::F3, &Key::Unknown(114)));
    assert!(!keys_match(&Key::KeyC, &Key::Unknown(67)));
}

#[test]
fn plain_hotkey_fires_on_its_key_only() {
    let s = spec(Key::Unknown(125), false, false);
    let mut st = ListenerState::new();
    assert!(st.on_event(&s, &InputEvent::KeyPress(Key::Unknown(125))));
    assert!(!st.on_event(&s, &InputEvent::KeyRelease(Key::Unknown(125))));
    assert!(!st.on_event(&s, &InputEvent::KeyPress(Key::Unknown(124))));
    assert!(!st.on_event(&s, &InputEvent::Other));
}

#[test]
fn alt_hotkey_needs_alt_held() {
    let s = spec(Key::KeyC, true, false);
    let mut st = ListenerState::new();
    assert!(!st.on_event(&s, &InputEvent::KeyPress(Key::KeyC)));
    assert!(!st.on_event(&s, &InputEvent::KeyPress(Key::AltGr)));
    assert!(st.alt_down);
    assert!(st.on_event(&s, &InputEvent::KeyPress(Key::KeyC)));
    assert!(!st.on_event(&s, &InputEvent::KeyRelease(Key::Alt)));
    assert!(!st.alt_down);
    assert!(!st.on_event(&s, &InputEvent::KeyPress(Key::KeyC)));
}

#[test]
fn ctrl_hotkey_needs_ctrl_held() {
    let s = spec(Key::Unknown(124), false, true);
    let mut st = ListenerState::new();
    st.on_event(&s, &InputEvent::KeyPress(Key::ControlRight));
    assert!(st.ctrl_down);
    assert!(st.on_event(&s, &InputEvent::KeyPress(Key::Unknown(124))));
    st.on_event(&s, &InputEvent::KeyRelease(Key::ControlLeft));
    assert!(!st.ctrl_down);
    assert!(!st.on_event(&s, &InputEvent::KeyPress(Key::Unknown(124))));
}

#[test]
fn alt_c_fires_on_the_reported_c_key() {
    let s = HotkeySpec::parse("Alt+C").unwrap();
    let mut st = ListenerState::new();
    assert!(!st.on_event(&s, &InputEvent::KeyPress(Key::Alt)));
    assert!(st.on_event(&s, &InputEvent::KeyPress(Key::KeyC)));
    let x = HotkeySpec::parse("Ctrl+X").unwrap();
    let mut st = ListenerState::new();
    assert!(!st.on_event(&x, &InputEvent::KeyPress(Key::KeyX)));
    st.on_event(&x, &InputEvent::KeyPress(Key::ControlLeft));
    assert!(st.on_event(&x, &InputEvent::KeyPress(Key::KeyX)));
}

#[test]
fn pressing_a_modifier_that_is_the_hotkey_fires() {
    let s = spec(Key::Alt, true, false);
    let mut st = ListenerState::new();
    assert!(st.on_event(&s, &InputEvent::KeyPress(Key::Alt)));
}
