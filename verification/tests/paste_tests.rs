use typingsucks::paste::{
    is_terminal_class, is_terminal_focused, paste_keystrokes, window_class_from, Keystroke, PasteKey,
};

#[test]
fn terminal_classes() {
    assert!(is_terminal_class("org.kde.Konsole"));
    assert!(is_terminal_class("Alacritty"));
    assert!(is_terminal_class("com.mitchellh.ghostty"));
    assert!(is_terminal_class("XTerm"));
    assert!(!is_terminal_class("firefox"));
    assert!(!is_terminal_class(""));
    assert!(is_terminal_focused(Some("kitty".to_string())));
    assert!(!is_terminal_focused(None));
}

#[test]
fn paste_shortcuts() {
    assert_eq!(paste_keystrokes(false), vec![
        Keystroke::Press(PasteKey::Control),
        Keystroke::Click(PasteKey::V),
        Keystroke::Release(PasteKey::Control),
    ]);
    assert_eq!(paste_keystrokes(true), vec![
        Keystroke::Press(PasteKey::Control),
        Keystroke::Press(PasteKey::Shift),
        Keystroke::Click(PasteKey::V),
        Keystroke::Release(PasteKey::Shift),
        Keystroke::Release(PasteKey::Control),
    ]);
}

#[test]
fn window_tool_output_is_trimmed() {
    assert_eq!(window_class_from("org.kde.konsole\n"), Some("org.kde.konsole".to_string()));
    assert_eq!(window_class_from("  Alacritty \r\n"), Some("Alacritty".to_string()));
    assert_eq!(window_class_from(""), None);
    assert_eq!(window_class_from(" \n\t"), None);
}
