use wavoic::hotkeys::{
    key_code_from_upper, modifier_of, parse_accelerator, parse_code, Accelerator, HotkeyError,
    KeyCode, ModifierKey, Modifiers,
};

fn mods(control: bool, shift: bool, alt: bool, meta: bool) -> Modifiers {
    Modifiers { control, shift, alt, meta }
}

#[test]
fn parse_simple() {
    assert!(parse_accelerator("F1").is_ok());
}

#[test]
fn parse_with_modifiers() {
    assert!(parse_accelerator("Ctrl+Shift+A").is_ok());
}

#[test]
fn parse_with_modifiers_gives_keys_and_mods() {
    let a = parse_accelerator("Ctrl+Shift+A").unwrap();
    assert_eq!(a, Accelerator { mods: mods(true, true, false, false), code: KeyCode::KeyA });
    let f = parse_accelerator("F1").unwrap();
    assert_eq!(f, Accelerator { mods: Modifiers::empty(), code: KeyCode::F1 });
}

#[test]
fn modifier_order_does_not_matter() {
    assert_eq!(parse_accelerator("Ctrl+Shift+A").unwrap(), parse_accelerator("Shift+Ctrl+A").unwrap());
    assert_eq!(parse_accelerator("alt+win+9").unwrap(), parse_accelerator("meta+alt+9").unwrap());
}

#[test]
fn repeated_modifier_counts_once() {
    assert_eq!(parse_accelerator("Ctrl+Ctrl+A").unwrap(), parse_accelerator("Ctrl+A").unwrap());
}

#[test]
fn later_key_wins() {
    let a = parse_accelerator("A+Ctrl+B").unwrap();
    assert_eq!(a, Accelerator { mods: mods(true, false, false, false), code: KeyCode::KeyB });
}

#[test]
fn tokens_are_trimmed_and_case_insensitive() {
    let a = parse_accelerator("  cOnTrOl +\talt+ space ").unwrap();
    assert_eq!(a, Accelerator { mods: mods(true, false, true, false), code: KeyCode::Space });
    let e = parse_accelerator("super+esc").unwrap();
    assert_eq!(e, Accelerator { mods: mods(false, false, false, true), code: KeyCode::Escape });
    let e = parse_accelerator("Escape").unwrap();
    assert_eq!(e.code, KeyCode::Escape);
}

#[test]
fn accelerator_without_key_is_refused() {
    match parse_accelerator("Ctrl+Shift") {
        Err(HotkeyError::NoKey(s)) => assert_eq!(s, "Ctrl+Shift"),
        other => panic!("unexpected {:?}", other),
    }
    let e = parse_accelerator("Ctrl").unwrap_err();
    assert_eq!(e.message(), "no key in accelerator 'Ctrl'");
}

#[test]
fn unknown_key_is_refused() {
    let e = parse_accelerator("Ctrl+Foo").unwrap_err();
    match &e {
        HotkeyError::UnknownKey(k) => assert_eq!(k, "FOO"),
        other => panic!("unexpected {:?}", other),
    }
    assert_eq!(e.message(), "unknown key 'FOO'");
    let e = parse_accelerator("Foo+Bar").unwrap_err();
    assert_eq!(e.message(), "unknown key 'FOO'");
    let e = parse_accelerator("F13").unwrap_err();
    assert_eq!(e.message(), "unknown key 'F13'");
}

#[test]
fn empty_token_is_an_unknown_key() {
    let e = parse_accelerator("Ctrl++A").unwrap_err();
    assert_eq!(e.message(), "unknown key ''");
    assert!(parse_accelerator("").is_err());
}

#[test]
fn key_codes_cover_the_table() {
    assert_eq!(key_code_from_upper("F1"), Some(KeyCode::F1));
    assert_eq!(key_code_from_upper("F9"), Some(KeyCode::F9));
    assert_eq!(key_code_from_upper("F10"), Some(KeyCode::F10));
    assert_eq!(key_code_from_upper("F12"), Some(KeyCode::F12));
    assert_eq!(key_code_from_upper("F13"), None);
    assert_eq!(key_code_from_upper("F0"), None);
    assert_eq!(key_code_from_upper("F"), Some(KeyCode::KeyF));
    assert_eq!(key_code_from_upper("Z"), Some(KeyCode::KeyZ));
    assert_eq!(key_code_from_upper("0"), Some(KeyCode::Digit0));
    assert_eq!(key_code_from_upper("7"), Some(KeyCode::Digit7));
    assert_eq!(key_code_from_upper("SPACE"), Some(KeyCode::Space));
    assert_eq!(key_code_from_upper("ESC"), Some(KeyCode::Escape));
    assert_eq!(key_code_from_upper("ESCAPE"), Some(KeyCode::Escape));
    assert_eq!(key_code_from_upper("a"), None);
    assert_eq!(key_code_from_upper("TAB"), None);
}

#[test]
fn modifier_names() {
    assert_eq!(modifier_of("ctrl"), Some(ModifierKey::Control));
    assert_eq!(modifier_of("control"), Some(ModifierKey::Control));
    assert_eq!(modifier_of("shift"), Some(ModifierKey::Shift));
    assert_eq!(modifier_of("alt"), Some(ModifierKey::Alt));
    assert_eq!(modifier_of("super"), Some(ModifierKey::Meta));
    assert_eq!(modifier_of("meta"), Some(ModifierKey::Meta));
    assert_eq!(modifier_of("win"), Some(ModifierKey::Meta));
    assert_eq!(modifier_of("Ctrl"), None);
    assert_eq!(modifier_of("cmd"), None);
}

#[test]
fn parse_code_upper_cases_first() {
    assert_eq!(parse_code("f5").unwrap(), KeyCode::F5);
    assert_eq!(parse_code("escape").unwrap(), KeyCode::Escape);
    assert_eq!(parse_code("tab").unwrap_err().message(), "unknown key 'TAB'");
}

#[test]
fn modifiers_with_adds_one_modifier() {
    let m = Modifiers::empty().with(ModifierKey::Alt).with(ModifierKey::Shift);
    assert_eq!(m, mods(false, true, true, false));
}
