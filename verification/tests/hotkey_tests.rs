use typingsucks::hotkey::{
    is_modifier_key, is_same_modifier, key_to_name, modifier_key_to_name, parse_hotkey,
    parse_key_name, parse_modifier, Hotkey, HotkeyEvent, HotkeyRecorder, HotkeyTracker, Key,
    RecordOutcome,
};

#[test]
fn parses_combo_hotkeys() {
    assert_eq!(
        parse_hotkey("Meta+Z"),
        Some(Hotkey { modifier: Some(Key::LeftMeta), key: Key::Z })
    );
    assert_eq!(
        parse_hotkey("Ctrl+Space"),
        Some(Hotkey { modifier: Some(Key::LeftCtrl), key: Key::Space })
    );
    assert_eq!(
        parse_hotkey("Alt+R"),
        Some(Hotkey { modifier: Some(Key::LeftAlt), key: Key::R })
    );
}

#[test]
fn multi_modifier_combo_tracks_first_modifier() {
    assert_eq!(
        parse_hotkey("Ctrl+Shift+Z"),
        Some(Hotkey { modifier: Some(Key::LeftCtrl), key: Key::Z })
    );
}

#[test]
fn combo_parts_are_trimmed() {
    assert_eq!(
        parse_hotkey(" ctrl +  f9 "),
        Some(Hotkey { modifier: Some(Key::LeftCtrl), key: Key::F9 })
    );
    assert_eq!(
        parse_hotkey("Super\t+\nz"),
        Some(Hotkey { modifier: Some(Key::LeftMeta), key: Key::Z })
    );
}

#[test]
fn parses_single_keys() {
    assert_eq!(parse_hotkey("ScrollLock"), Some(Hotkey { modifier: None, key: Key::ScrollLock }));
    assert_eq!(parse_hotkey("F9"), Some(Hotkey { modifier: None, key: Key::F9 }));
    assert_eq!(parse_hotkey("Pause"), Some(Hotkey { modifier: None, key: Key::Pause }));
    assert_eq!(parse_hotkey("7"), Some(Hotkey { modifier: None, key: Key::Num7 }));
}

#[test]
fn rejects_unknown_hotkeys() {
    assert_eq!(parse_hotkey("Hyper"), None);
    assert_eq!(parse_hotkey("Bogus+Z"), None);
    assert_eq!(parse_hotkey("Meta+"), None);
    assert_eq!(parse_hotkey("Meta+Enter"), None);
    assert_eq!(parse_hotkey(""), None);
    assert_eq!(parse_hotkey(" F9"), None);
}

#[test]
fn key_names_are_case_insensitive() {
    assert_eq!(parse_key_name("SCROLLLOCK"), Some(Key::ScrollLock));
    assert_eq!(parse_key_name("scroll_lock"), Some(Key::ScrollLock));
    assert_eq!(parse_key_name("Break"), Some(Key::Pause));
    assert_eq!(parse_key_name("AltGr"), Some(Key::RightAlt));
    assert_eq!(parse_key_name("super_r"), Some(Key::RightMeta));
    assert_eq!(parse_key_name("Esc"), Some(Key::Esc));
    assert_eq!(parse_key_name("escape"), Some(Key::Esc));
    assert_eq!(parse_key_name("Caps_Lock"), Some(Key::CapsLock));
    assert_eq!(parse_key_name("F12"), Some(Key::F12));
    assert_eq!(parse_key_name("f13"), None);
    assert_eq!(parse_key_name("semicolon"), Some(Key::Semicolon));
    assert_eq!(parse_key_name("q"), Some(Key::Q));
    assert_eq!(parse_key_name("super"), Some(Key::LeftMeta));
}

#[test]
fn modifier_names() {
    assert_eq!(parse_modifier("Meta"), Some(Key::LeftMeta));
    assert_eq!(parse_modifier("WIN"), Some(Key::LeftMeta));
    assert_eq!(parse_modifier("super"), Some(Key::LeftMeta));
    assert_eq!(parse_modifier("Alt"), Some(Key::LeftAlt));
    assert_eq!(parse_modifier("Control"), Some(Key::LeftCtrl));
    assert_eq!(parse_modifier("ctrl"), Some(Key::LeftCtrl));
    assert_eq!(parse_modifier("Shift"), Some(Key::LeftShift));
    assert_eq!(parse_modifier("altgr"), None);
}

#[test]
fn display_names() {
    assert_eq!(key_to_name(Key::Esc), Some("Escape"));
    assert_eq!(key_to_name(Key::PageUp), Some("PageUp"));
    assert_eq!(key_to_name(Key::Num0), Some("0"));
    assert_eq!(key_to_name(Key::Z), Some("Z"));
    assert_eq!(key_to_name(Key::LeftMeta), None);
    assert_eq!(key_to_name(Key::Other(200)), None);
    assert_eq!(modifier_key_to_name(Key::RightMeta), Some("Meta"));
    assert_eq!(modifier_key_to_name(Key::LeftCtrl), Some("Ctrl"));
    assert_eq!(modifier_key_to_name(Key::RightShift), Some("Shift"));
    assert_eq!(modifier_key_to_name(Key::RightAlt), Some("Alt"));
    assert_eq!(modifier_key_to_name(Key::A), None);
}

#[test]
fn modifier_families() {
    assert!(is_modifier_key(Key::RightCtrl));
    assert!(!is_modifier_key(Key::Space));
    assert!(is_same_modifier(Key::LeftMeta, Key::RightMeta));
    assert!(is_same_modifier(Key::LeftShift, Key::LeftShift));
    assert!(!is_same_modifier(Key::LeftMeta, Key::LeftAlt));
    assert!(!is_same_modifier(Key::A, Key::A));
}

fn feed(t: &mut HotkeyTracker, events: &[(Key, i32)]) -> Vec<HotkeyEvent> {
    let mut out = Vec::new();
    for &(k, v) in events {
        if let Some(e) = t.on_key(k, v) {
            out.push(e);
        }
    }
    out
}

#[test]
fn combo_press_and_release_by_key() {
    let mut t = HotkeyTracker::new(parse_hotkey("Meta+Z").unwrap());
    let out = feed(&mut t, &[
        (Key::LeftMeta, 1),
        (Key::Z, 1),
        (Key::Z, 2),
        (Key::Z, 0),
        (Key::LeftMeta, 0),
    ]);
    assert_eq!(out, vec![HotkeyEvent::Pressed, HotkeyEvent::Released]);
    assert!(!t.combo_active);
    assert!(!t.modifier_held);
}

#[test]
fn combo_released_by_modifier_and_right_variant_counts() {
    let mut t = HotkeyTracker::new(parse_hotkey("Meta+Z").unwrap());
    let out = feed(&mut t, &[
        (Key::RightMeta, 1),
        (Key::Z, 1),
        (Key::RightMeta, 0),
        (Key::Z, 0),
    ]);
    assert_eq!(out, vec![HotkeyEvent::Pressed, HotkeyEvent::Released]);
}

#[test]
fn combo_needs_the_modifier() {
    let mut t = HotkeyTracker::new(parse_hotkey("Ctrl+Space").unwrap());
    let out = feed(&mut t, &[(Key::Space, 1), (Key::Space, 0), (Key::LeftAlt, 1), (Key::Space, 1)]);
    assert!(out.is_empty());
}

#[test]
fn single_key_mode() {
    let mut t = HotkeyTracker::new(parse_hotkey("F9").unwrap());
    let out = feed(&mut t, &[(Key::F9, 1), (Key::F9, 2), (Key::F8, 1), (Key::F9, 0)]);
    assert_eq!(out, vec![HotkeyEvent::Pressed, HotkeyEvent::Released]);
}

#[test]
fn recorder_builds_combo_in_fixed_order() {
    let mut r = HotkeyRecorder::new();
    assert_eq!(r.on_key(Key::RightShift, 1), RecordOutcome::Continue);
    assert_eq!(r.on_key(Key::LeftCtrl, 1), RecordOutcome::Continue);
    assert_eq!(r.on_key(Key::LeftShift, 1), RecordOutcome::Continue);
    assert_eq!(r.held_modifiers, vec![Key::RightShift, Key::LeftCtrl]);
    assert_eq!(r.on_key(Key::Z, 1), RecordOutcome::Captured("Ctrl+Shift+Z".to_string()));
}

#[test]
fn recorder_forgets_released_modifiers() {
    let mut r = HotkeyRecorder::new();
    r.on_key(Key::LeftMeta, 1);
    r.on_key(Key::LeftAlt, 1);
    r.on_key(Key::RightMeta, 0);
    assert_eq!(r.held_modifiers, vec![Key::LeftAlt]);
    assert_eq!(r.on_key(Key::F5, 1), RecordOutcome::Captured("Alt+F5".to_string()));
}

#[test]
fn recorder_single_key_and_unknown_key() {
    let mut r = HotkeyRecorder::new();
    assert_eq!(r.on_key(Key::Esc, 1), RecordOutcome::Captured("Escape".to_string()));
    let mut r = HotkeyRecorder::new();
    assert_eq!(r.on_key(Key::A, 0), RecordOutcome::Continue);
    assert_eq!(r.on_key(Key::Other(28), 1), RecordOutcome::Ignored);
}

#[test]
fn recorded_combo_parses_back() {
    let mut r = HotkeyRecorder::new();
    r.on_key(Key::RightMeta, 1);
    let combo = match r.on_key(Key::Z, 1) {
        RecordOutcome::Captured(c) => c,
        other => panic!("unexpected {:?}", other),
    };
    assert_eq!(combo, "Meta+Z");
    assert_eq!(parse_hotkey(&combo), Some(Hotkey { modifier: Some(Key::LeftMeta), key: Key::Z }));
}

#[test]
fn key_names_ignore_case() {
    for s in ["ScrollLock", "scrolllock", "SCROLLLOCK"] {
        assert_eq!(parse_key_name(s), Some(Key::ScrollLock));
    }
    assert_eq!(parse_modifier("CONTROL"), Some(Key::LeftCtrl));
    assert_eq!(parse_hotkey("META+z"), parse_hotkey("meta+Z"));
}

#[test]
fn every_key_name_parses_back() {
    let keys = [
        Key::ScrollLock, Key::Pause, Key::Insert, Key::Home, Key::End, Key::PageUp, Key::PageDown,
        Key::Space, Key::Esc, Key::Tab, Key::F1, Key::F12, Key::CapsLock, Key::NumLock,
        Key::Minus, Key::Semicolon, Key::Num0, Key::Num9, Key::A, Key::Z,
    ];
    for k in keys {
        let n = key_to_name(k).unwrap();
        assert_eq!(parse_key_name(n), Some(k));
        assert_eq!(parse_hotkey(n), Some(Hotkey { modifier: None, key: k }));
    }
}

#[test]
fn combo_events_come_only_from_their_causes() {
    let mut t = HotkeyTracker::new(parse_hotkey("Meta+Z").unwrap());
    let keys = [
        (Key::Z, 1),          // no modifier held: nothing
        (Key::LeftMeta, 1),
        (Key::Z, 2),          // a repeat does not press
        (Key::Z, 1),          // pressed
        (Key::LeftAlt, 0),    // another family: nothing
        (Key::RightMeta, 0),  // the family goes up: released
        (Key::Z, 0),          // already released: nothing
        (Key::RightMeta, 1),
        (Key::Z, 1),          // pressed
        (Key::Z, 0),          // released by the key
    ];
    let mut caused = Vec::new();
    for (i, &(k, v)) in keys.iter().enumerate() {
        if let Some(ev) = t.on_key(k, v) {
            caused.push((i, ev));
        }
    }
    assert_eq!(
        caused,
        vec![
            (3, HotkeyEvent::Pressed),
            (5, HotkeyEvent::Released),
            (8, HotkeyEvent::Pressed),
            (9, HotkeyEvent::Released),
        ]
    );
}
