use dictation_core::hotkey::{
    check_combo, migrate_hotkey_format, needs_migration, parse_hotkey_string, parse_key_name,
    ComboChange, KeyCode,
};
use dictation_core::output::{parse_paste_shortcut, paste_key_sequence, KeyAction, PasteKey};

#[test]
fn key_names_parse_to_key_codes() {
    assert_eq!(parse_key_name("ControlLeft"), Some(KeyCode::ControlLeft));
    assert_eq!(parse_key_name("Space"), Some(KeyCode::Space));
    assert_eq!(parse_key_name("A"), Some(KeyCode::KeyA));
    assert_eq!(parse_key_name("KeyZ"), Some(KeyCode::KeyZ));
    assert_eq!(parse_key_name("Digit7"), Some(KeyCode::Num7));
    assert_eq!(parse_key_name("7"), Some(KeyCode::Num7));
    assert_eq!(parse_key_name("Numpad5"), Some(KeyCode::Kp5));
    assert_eq!(parse_key_name("F11"), Some(KeyCode::F11));
    assert_eq!(parse_key_name("Period"), Some(KeyCode::Dot));
    assert_eq!(parse_key_name("AltGr"), Some(KeyCode::AltGr));
    assert_eq!(parse_key_name("Esc"), Some(KeyCode::Escape));
    assert_eq!(parse_key_name("NoSuchKey"), None);
    assert_eq!(parse_key_name(""), None);
}

#[test]
fn hotkey_strings_parse_to_combos() {
    assert_eq!(
        parse_hotkey_string("ControlLeft+ShiftLeft+Space"),
        vec![KeyCode::ControlLeft, KeyCode::ShiftLeft, KeyCode::Space]
    );
    assert_eq!(parse_hotkey_string("Space"), vec![KeyCode::Space]);
    assert_eq!(parse_hotkey_string(""), Vec::<KeyCode>::new());
    // Empty and unknown segments are skipped.
    assert_eq!(parse_hotkey_string("++Space"), vec![KeyCode::Space]);
    assert_eq!(parse_hotkey_string("Bogus+Space"), vec![KeyCode::Space]);
    // Segments are trimmed before parsing.
    assert_eq!(parse_hotkey_string(" ControlLeft + Space "), vec![
        KeyCode::ControlLeft,
        KeyCode::Space,
    ]);
}

#[test]
fn old_hotkey_spellings_migrate() {
    assert_eq!(migrate_hotkey_format("CmdOrCtrl+Shift+Space"), "ControlLeft+ShiftLeft+Space");
    assert_eq!(migrate_hotkey_format("Ctrl+Alt+V"), "ControlLeft+AltLeft+V");
    assert_eq!(migrate_hotkey_format("Super+Space"), "MetaLeft+Space");
    assert_eq!(migrate_hotkey_format("AltGr+Q"), "AltRight+Q");
    assert_eq!(
        migrate_hotkey_format("ControlLeft+ShiftLeft+Space"),
        "ControlLeft+ShiftLeft+Space"
    );
}

#[test]
fn migration_detection() {
    assert!(needs_migration("CmdOrCtrl+Shift+Space"));
    assert!(needs_migration("Alt+F4"));
    assert!(needs_migration("Shift"));
    assert!(!needs_migration("ControlLeft+ShiftLeft+Space"));
    assert!(!needs_migration("F5"));
    assert!(!needs_migration(""));
}

#[test]
fn combo_press_and_release_decisions() {
    let combo = vec![KeyCode::ControlLeft, KeyCode::Space];
    let both = vec![KeyCode::ControlLeft, KeyCode::Space];
    let one = vec![KeyCode::ControlLeft];
    assert_eq!(check_combo(&combo, &both, false, false), ComboChange::Pressed);
    assert_eq!(check_combo(&combo, &both, false, true), ComboChange::Unchanged);
    assert_eq!(check_combo(&combo, &one, false, true), ComboChange::Released);
    assert_eq!(check_combo(&combo, &one, false, false), ComboChange::Unchanged);
    // Paused listeners and empty combos never fire.
    assert_eq!(check_combo(&combo, &both, true, false), ComboChange::Unchanged);
    assert_eq!(check_combo(&Vec::new(), &both, false, false), ComboChange::Unchanged);
}

#[test]
fn paste_shortcut_parses_modifiers_and_key() {
    let (mods, key) = parse_paste_shortcut("Ctrl+Shift+V").unwrap();
    assert_eq!(mods, vec![PasteKey::Control, PasteKey::Shift]);
    assert_eq!(key, PasteKey::Unicode('v'));

    let (mods, key) = parse_paste_shortcut("Cmd+V").unwrap();
    assert_eq!(mods, vec![PasteKey::Meta]);
    assert_eq!(key, PasteKey::Unicode('v'));

    let (mods, key) = parse_paste_shortcut("v").unwrap();
    assert!(mods.is_empty());
    assert_eq!(key, PasteKey::Unicode('v'));

    let (mods, _) = parse_paste_shortcut("control+alt+super+x").unwrap();
    assert_eq!(mods, vec![PasteKey::Control, PasteKey::Alt, PasteKey::Meta]);
}

#[test]
fn paste_shortcut_rejects_unknown_modifier() {
    let err = parse_paste_shortcut("Foo+V").unwrap_err();
    assert_eq!(err.message(), "Unknown modifier in paste shortcut: foo");
}

#[test]
fn paste_shortcut_rejects_multi_character_key() {
    let err = parse_paste_shortcut("Ctrl+VV").unwrap_err();
    assert_eq!(err.message(), "Invalid key in paste shortcut: VV");
    let err = parse_paste_shortcut("").unwrap_err();
    assert_eq!(err.message(), "Invalid key in paste shortcut: ");
}

#[test]
fn paste_sequence_orders_key_actions() {
    let mods = vec![PasteKey::Control, PasteKey::Shift];
    let seq = paste_key_sequence(&mods, PasteKey::Unicode('v'));
    assert_eq!(seq, vec![
        KeyAction::Release(PasteKey::Control),
        KeyAction::Release(PasteKey::Shift),
        KeyAction::Release(PasteKey::Alt),
        KeyAction::Release(PasteKey::Meta),
        KeyAction::Press(PasteKey::Control),
        KeyAction::Press(PasteKey::Shift),
        KeyAction::Click(PasteKey::Unicode('v')),
        KeyAction::Release(PasteKey::Shift),
        KeyAction::Release(PasteKey::Control),
    ]);
}
