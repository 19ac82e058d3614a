use vstd::prelude::*;
use crate::text::{
    after_last, before_first, lemma_after_last, lemma_before_first, chars_after_last, chars_before_first, chars_eq_str, chars_of,
    contains_char, lowercase, lowercase_chars, ascii_lower, ascii_upper, is_ascii_chars, push_str, string_of, trim, trim_chars, trim_start, trim_end,
};

verus! {

/// A keyboard key, as the hotkey logic reads it. The named variants are the keys that
/// hotkey names can mention, the modifiers, and the keys that can complete a recorded
/// hotkey; `Other` carries the evdev code of any other key.
#[derive(Debug, Clone, Copy, PartialEq, Eq, Structural)]
pub enum Key {
    ScrollLock,
    Pause,
    Insert,
    Home,
    End,
    PageUp,
    PageDown,
    Space,
    F1,
    F2,
    F3,
    F4,
    F5,
    F6,
    F7,
    F8,
    F9,
    F10,
    F11,
    F12,
    CapsLock,
    NumLock,
    Esc,
    Tab,
    Minus,
    Semicolon,
    Num0,
    Num1,
    Num2,
    Num3,
    Num4,
    Num5,
    Num6,
    Num7,
    Num8,
    Num9,
    A,
    B,
    C,
    D,
    E,
    F,
    G,
    H,
    I,
    J,
    K,
    L,
    M,
    N,
    O,
    P,
    Q,
    R,
    S,
    T,
    U,
    V,
    W,
    X,
    Y,
    Z,
    LeftMeta,
    RightMeta,
    LeftAlt,
    RightAlt,
    LeftCtrl,
    RightCtrl,
    LeftShift,
    RightShift,
    Other(u16),
}

/// A change of the hotkey's state.
#[derive(Debug, Clone, Copy, PartialEq, Eq, Structural)]
pub enum HotkeyEvent {
    Pressed,
    Released,
}

/// The view of an optional static string.
pub open spec fn opt_str_view(o: Option<&'static str>) -> Option<Seq<char>> {
    match o {
        Some(s) => Some(s@),
        None => None,
    }
}

/// The key that a lowercased name means, among the special names.
pub open spec fn special_for_name(s: Seq<char>) -> Option<Key> {
    if s == "scrolllock"@ || s == "scroll_lock"@ {
        Some(Key::ScrollLock)
    } else if s == "pause"@ || s == "break"@ {
        Some(Key::Pause)
    } else if s == "insert"@ {
        Some(Key::Insert)
    } else if s == "home"@ {
        Some(Key::Home)
    } else if s == "end"@ {
        Some(Key::End)
    } else if s == "pageup"@ {
        Some(Key::PageUp)
    } else if s == "pagedown"@ {
        Some(Key::PageDown)
    } else if s == "space"@ {
        Some(Key::Space)
    } else {
        None
    }
}

fn special_named(v: &Vec<char>) -> (r: Option<Key>)
    ensures
        r == special_for_name(v@),
{
    if chars_eq_str(v, "scrolllock") || chars_eq_str(v, "scroll_lock") {
        Some(Key::ScrollLock)
    } else if chars_eq_str(v, "pause") || chars_eq_str(v, "break") {
        Some(Key::Pause)
    } else if chars_eq_str(v, "insert") {
        Some(Key::Insert)
    } else if chars_eq_str(v, "home") {
        Some(Key::Home)
    } else if chars_eq_str(v, "end") {
        Some(Key::End)
    } else if chars_eq_str(v, "pageup") {
        Some(Key::PageUp)
    } else if chars_eq_str(v, "pagedown") {
        Some(Key::PageDown)
    } else if chars_eq_str(v, "space") {
        Some(Key::Space)
    } else {
        None
    }
}

/// The key that a lowercased name means, among the function key names.
pub open spec fn function_key_for_name(s: Seq<char>) -> Option<Key> {
    if s == "f1"@ {
        Some(Key::F1)
    } else if s == "f2"@ {
        Some(Key::F2)
    } else if s == "f3"@ {
        Some(Key::F3)
    } else if s == "f4"@ {
        Some(Key::F4)
    } else if s == "f5"@ {
        Some(Key::F5)
    } else if s == "f6"@ {
        Some(Key::F6)
    } else if s == "f7"@ {
        Some(Key::F7)
    } else if s == "f8"@ {
        Some(Key::F8)
    } else if s == "f9"@ {
        Some(Key::F9)
    } else if s == "f10"@ {
        Some(Key::F10)
    } else if s == "f11"@ {
        Some(Key::F11)
    } else if s == "f12"@ {
        Some(Key::F12)
    } else {
        None
    }
}

fn function_key_named(v: &Vec<char>) -> (r: Option<Key>)
    ensures
        r == function_key_for_name(v@),
{
    if chars_eq_str(v, "f1") {
        Some(Key::F1)
    } else if chars_eq_str(v, "f2") {
        Some(Key::F2)
    } else if chars_eq_str(v, "f3") {
        Some(Key::F3)
    } else if chars_eq_str(v, "f4") {
        Some(Key::F4)
    } else if chars_eq_str(v, "f5") {
        Some(Key::F5)
    } else if chars_eq_str(v, "f6") {
        Some(Key::F6)
    } else if chars_eq_str(v, "f7") {
        Some(Key::F7)
    } else if chars_eq_str(v, "f8") {
        Some(Key::F8)
    } else if chars_eq_str(v, "f9") {
        Some(Key::F9)
    } else if chars_eq_str(v, "f10") {
        Some(Key::F10)
    } else if chars_eq_str(v, "f11") {
        Some(Key::F11)
    } else if chars_eq_str(v, "f12") {
        Some(Key::F12)
    } else {
        None
    }
}

/// The key that a lowercased name means, among the lock or side names.
pub open spec fn lock_or_side_for_name(s: Seq<char>) -> Option<Key> {
    if s == "capslock"@ || s == "caps_lock"@ {
        Some(Key::CapsLock)
    } else if s == "numlock"@ || s == "num_lock"@ {
        Some(Key::NumLock)
    } else if s == "rightalt"@ || s == "right_alt"@ || s == "altgr"@ {
        Some(Key::RightAlt)
    } else if s == "rightctrl"@ || s == "right_ctrl"@ {
        Some(Key::RightCtrl)
    } else if s == "leftmeta"@ || s == "super"@ || s == "super_l"@ {
        Some(Key::LeftMeta)
    } else if s == "rightmeta"@ || s == "super_r"@ {
        Some(Key::RightMeta)
    } else if s == "escape"@ || s == "esc"@ {
        Some(Key::Esc)
    } else if s == "tab"@ {
        Some(Key::Tab)
    } else if s == "minus"@ {
        Some(Key::Minus)
    } else {
        None
    }
}

fn lock_or_side_named(v: &Vec<char>) -> (r: Option<Key>)
    ensures
        r == lock_or_side_for_name(v@),
{
    if chars_eq_str(v, "capslock") || chars_eq_str(v, "caps_lock") {
        Some(Key::CapsLock)
    } else if chars_eq_str(v, "numlock") || chars_eq_str(v, "num_lock") {
        Some(Key::NumLock)
    } else if chars_eq_str(v, "rightalt") || chars_eq_str(v, "right_alt") || chars_eq_str(v, "altgr") {
        Some(Key::RightAlt)
    } else if chars_eq_str(v, "rightctrl") || chars_eq_str(v, "right_ctrl") {
        Some(Key::RightCtrl)
    } else if chars_eq_str(v, "leftmeta") || chars_eq_str(v, "super") || chars_eq_str(v, "super_l") {
        Some(Key::LeftMeta)
    } else if chars_eq_str(v, "rightmeta") || chars_eq_str(v, "super_r") {
        Some(Key::RightMeta)
    } else if chars_eq_str(v, "escape") || chars_eq_str(v, "esc") {
        Some(Key::Esc)
    } else if chars_eq_str(v, "tab") {
        Some(Key::Tab)
    } else if chars_eq_str(v, "minus") {
        Some(Key::Minus)
    } else {
        None
    }
}

/// The key that a lowercased name means, among the digit names.
pub open spec fn digit_for_name(s: Seq<char>) -> Option<Key> {
    if s == "semicolon"@ {
        Some(Key::Semicolon)
    } else if s == "0"@ {
        Some(Key::Num0)
    } else if s == "1"@ {
        Some(Key::Num1)
    } else if s == "2"@ {
        Some(Key::Num2)
    } else if s == "3"@ {
        Some(Key::Num3)
    } else if s == "4"@ {
        Some(Key::Num4)
    } else if s == "5"@ {
        Some(Key::Num5)
    } else if s == "6"@ {
        Some(Key::Num6)
    } else if s == "7"@ {
        Some(Key::Num7)
    } else if s == "8"@ {
        Some(Key::Num8)
    } else {
        None
    }
}

fn digit_named(v: &Vec<char>) -> (r: Option<Key>)
    ensures
        r == digit_for_name(v@),
{
    if chars_eq_str(v, "semicolon") {
        Some(Key::Semicolon)
    } else if chars_eq_str(v, "0") {
        Some(Key::Num0)
    } else if chars_eq_str(v, "1") {
        Some(Key::Num1)
    } else if chars_eq_str(v, "2") {
        Some(Key::Num2)
    } else if chars_eq_str(v, "3") {
        Some(Key::Num3)
    } else if chars_eq_str(v, "4") {
        Some(Key::Num4)
    } else if chars_eq_str(v, "5") {
        Some(Key::Num5)
    } else if chars_eq_str(v, "6") {
        Some(Key::Num6)
    } else if chars_eq_str(v, "7") {
        Some(Key::Num7)
    } else if chars_eq_str(v, "8") {
        Some(Key::Num8)
    } else {
        None
    }
}

/// The key that a lowercased name means, among the letter names.
pub open spec fn letter_for_name(s: Seq<char>) -> Option<Key> {
    if s == "9"@ {
        Some(Key::Num9)
    } else if s == "a"@ {
        Some(Key::A)
    } else if s == "b"@ {
        Some(Key::B)
    } else if s == "c"@ {
        Some(Key::C)
    } else if s == "d"@ {
        Some(Key::D)
    } else if s == "e"@ {
        Some(Key::E)
    } else if s == "f"@ {
        Some(Key::F)
    } else if s == "g"@ {
        Some(Key::G)
    } else if s == "h"@ {
        Some(Key::H)
    } else if s == "i"@ {
        Some(Key::I)
    } else if s == "j"@ {
        Some(Key::J)
    } else if s == "k"@ {
        Some(Key::K)
    } else if s == "l"@ {
        Some(Key::L)
    } else if s == "m"@ {
        Some(Key::M)
    } else if s == "n"@ {
        Some(Key::N)
    } else if s == "o"@ {
        Some(Key::O)
    } else if s == "p"@ {
        Some(Key::P)
    } else if s == "q"@ {
        Some(Key::Q)
    } else if s == "r"@ {
        Some(Key::R)
    } else if s == "s"@ {
        Some(Key::S)
    } else if s == "t"@ {
        Some(Key::T)
    } else if s == "u"@ {
        Some(Key::U)
    } else if s == "v"@ {
        Some(Key::V)
    } else if s == "w"@ {
        Some(Key::W)
    } else if s == "x"@ {
        Some(Key::X)
    } else if s == "y"@ {
        Some(Key::Y)
    } else if s == "z"@ {
        Some(Key::Z)
    } else {
        None
    }
}

fn letter_named(v: &Vec<char>) -> (r: Option<Key>)
    ensures
        r == letter_for_name(v@),
{
    if chars_eq_str(v, "9") {
        Some(Key::Num9)
    } else if chars_eq_str(v, "a") {
        Some(Key::A)
    } else if chars_eq_str(v, "b") {
        Some(Key::B)
    } else if chars_eq_str(v, "c") {
        Some(Key::C)
    } else if chars_eq_str(v, "d") {
        Some(Key::D)
    } else if chars_eq_str(v, "e") {
        Some(Key::E)
    } else if chars_eq_str(v, "f") {
        Some(Key::F)
    } else if chars_eq_str(v, "g") {
        Some(Key::G)
    } else if chars_eq_str(v, "h") {
        Some(Key::H)
    } else if chars_eq_str(v, "i") {
        Some(Key::I)
    } else if chars_eq_str(v, "j") {
        Some(Key::J)
    } else if chars_eq_str(v, "k") {
        Some(Key::K)
    } else if chars_eq_str(v, "l") {
        Some(Key::L)
    } else if chars_eq_str(v, "m") {
        Some(Key::M)
    } else if chars_eq_str(v, "n") {
        Some(Key::N)
    } else if chars_eq_str(v, "o") {
        Some(Key::O)
    } else if chars_eq_str(v, "p") {
        Some(Key::P)
    } else if chars_eq_str(v, "q") {
        Some(Key::Q)
    } else if chars_eq_str(v, "r") {
        Some(Key::R)
    } else if chars_eq_str(v, "s") {
        Some(Key::S)
    } else if chars_eq_str(v, "t") {
        Some(Key::T)
    } else if chars_eq_str(v, "u") {
        Some(Key::U)
    } else if chars_eq_str(v, "v") {
        Some(Key::V)
    } else if chars_eq_str(v, "w") {
        Some(Key::W)
    } else if chars_eq_str(v, "x") {
        Some(Key::X)
    } else if chars_eq_str(v, "y") {
        Some(Key::Y)
    } else if chars_eq_str(v, "z") {
        Some(Key::Z)
    } else {
        None
    }
}

/// The key that a lowercased key name means ("scrolllock", "f9", "z", "altgr", ...).
pub open spec fn key_for_name(s: Seq<char>) -> Option<Key> {
    match special_for_name(s) {
        Some(k) => Some(k),
        None => match function_key_for_name(s) {
            Some(k) => Some(k),
            None => match lock_or_side_for_name(s) {
                Some(k) => Some(k),
                None => match digit_for_name(s) {
                    Some(k) => Some(k),
                    None => letter_for_name(s),
                },
            },
        },
    }
}

/// The key that an already lowercased key name means.
pub fn key_from_lowercase(v: &Vec<char>) -> (r: Option<Key>)
    ensures
        r == key_for_name(v@),
{
    match special_named(v) {
        Some(k) => Some(k),
        None => match function_key_named(v) {
            Some(k) => Some(k),
            None => match lock_or_side_named(v) {
                Some(k) => Some(k),
                None => match digit_named(v) {
                    Some(k) => Some(k),
                    None => letter_named(v),
                },
            },
        },
    }
}

/// The key that a key name means, whatever its case ("ScrollLock", "F9", "z", ...).
pub fn parse_key_name(name: &str) -> (r: Option<Key>)
    ensures
        r == key_for_name(lowercase(name@)),
{
    let v = lowercase_chars(name);
    key_from_lowercase(&v)
}

/// The modifier that a lowercased modifier name means; the left-hand key stands for
/// both sides.
pub open spec fn modifier_for_name(s: Seq<char>) -> Option<Key> {
    if s == "meta"@ || s == "super"@ || s == "win"@ {
        Some(Key::LeftMeta)
    } else if s == "alt"@ {
        Some(Key::LeftAlt)
    } else if s == "ctrl"@ || s == "control"@ {
        Some(Key::LeftCtrl)
    } else if s == "shift"@ {
        Some(Key::LeftShift)
    } else {
        None
    }
}

/// The modifier that an already lowercased modifier name means.
pub fn modifier_from_lowercase(v: &Vec<char>) -> (r: Option<Key>)
    ensures
        r == modifier_for_name(v@),
{
    if chars_eq_str(v, "meta") || chars_eq_str(v, "super") || chars_eq_str(v, "win") {
        Some(Key::LeftMeta)
    } else if chars_eq_str(v, "alt") {
        Some(Key::LeftAlt)
    } else if chars_eq_str(v, "ctrl") || chars_eq_str(v, "control") {
        Some(Key::LeftCtrl)
    } else if chars_eq_str(v, "shift") {
        Some(Key::LeftShift)
    } else {
        None
    }
}

/// The modifier that a modifier name means, whatever its case ("Meta", "ctrl", ...).
pub fn parse_modifier(name: &str) -> (r: Option<Key>)
    ensures
        r == modifier_for_name(lowercase(name@)),
{
    let v = lowercase_chars(name);
    modifier_from_lowercase(&v)
}

/// The display name of a key that can complete a recorded hotkey.
pub open spec fn key_name_spec(key: Key) -> Option<Seq<char>> {
    match key {
        Key::ScrollLock => Some("ScrollLock"@),
        Key::Pause => Some("Pause"@),
        Key::Insert => Some("Insert"@),
        Key::Home => Some("Home"@),
        Key::End => Some("End"@),
        Key::PageUp => Some("PageUp"@),
        Key::PageDown => Some("PageDown"@),
        Key::Space => Some("Space"@),
        Key::Esc => Some("Escape"@),
        Key::Tab => Some("Tab"@),
        Key::F1 => Some("F1"@),
        Key::F2 => Some("F2"@),
        Key::F3 => Some("F3"@),
        Key::F4 => Some("F4"@),
        Key::F5 => Some("F5"@),
        Key::F6 => Some("F6"@),
        Key::F7 => Some("F7"@),
        Key::F8 => Some("F8"@),
        Key::F9 => Some("F9"@),
        Key::F10 => Some("F10"@),
        Key::F11 => Some("F11"@),
        Key::F12 => Some("F12"@),
        Key::CapsLock => Some("CapsLock"@),
        Key::NumLock => Some("NumLock"@),
        Key::Minus => Some("Minus"@),
        Key::Semicolon => Some("Semicolon"@),
        Key::Num0 => Some("0"@),
        Key::Num1 => Some("1"@),
        Key::Num2 => Some("2"@),
        Key::Num3 => Some("3"@),
        Key::Num4 => Some("4"@),
        Key::Num5 => Some("5"@),
        Key::Num6 => Some("6"@),
        Key::Num7 => Some("7"@),
        Key::Num8 => Some("8"@),
        Key::Num9 => Some("9"@),
        Key::A => Some("A"@),
        Key::B => Some("B"@),
        Key::C => Some("C"@),
        Key::D => Some("D"@),
        Key::E => Some("E"@),
        Key::F => Some("F"@),
        Key::G => Some("G"@),
        Key::H => Some("H"@),
        Key::I => Some("I"@),
        Key::J => Some("J"@),
        Key::K => Some("K"@),
        Key::L => Some("L"@),
        Key::M => Some("M"@),
        Key::N => Some("N"@),
        Key::O => Some("O"@),
        Key::P => Some("P"@),
        Key::Q => Some("Q"@),
        Key::R => Some("R"@),
        Key::S => Some("S"@),
        Key::T => Some("T"@),
        Key::U => Some("U"@),
        Key::V => Some("V"@),
        Key::W => Some("W"@),
        Key::X => Some("X"@),
        Key::Y => Some("Y"@),
        Key::Z => Some("Z"@),
        _ => None,
    }
}

/// The display name of a key that can complete a recorded hotkey ("ScrollLock",
/// "F9", "Z", ...); `None` for modifiers and keys without a name here.
pub fn key_to_name(key: Key) -> (r: Option<&'static str>)
    ensures
        opt_str_view(r) == key_name_spec(key),
{
    match key {
        Key::ScrollLock => Some("ScrollLock"),
        Key::Pause => Some("Pause"),
        Key::Insert => Some("Insert"),
        Key::Home => Some("Home"),
        Key::End => Some("End"),
        Key::PageUp => Some("PageUp"),
        Key::PageDown => Some("PageDown"),
        Key::Space => Some("Space"),
        Key::Esc => Some("Escape"),
        Key::Tab => Some("Tab"),
        Key::F1 => Some("F1"),
        Key::F2 => Some("F2"),
        Key::F3 => Some("F3"),
        Key::F4 => Some("F4"),
        Key::F5 => Some("F5"),
        Key::F6 => Some("F6"),
        Key::F7 => Some("F7"),
        Key::F8 => Some("F8"),
        Key::F9 => Some("F9"),
        Key::F10 => Some("F10"),
        Key::F11 => Some("F11"),
        Key::F12 => Some("F12"),
        Key::CapsLock => Some("CapsLock"),
        Key::NumLock => Some("NumLock"),
        Key::Minus => Some("Minus"),
        Key::Semicolon => Some("Semicolon"),
        Key::Num0 => Some("0"),
        Key::Num1 => Some("1"),
        Key::Num2 => Some("2"),
        Key::Num3 => Some("3"),
        Key::Num4 => Some("4"),
        Key::Num5 => Some("5"),
        Key::Num6 => Some("6"),
        Key::Num7 => Some("7"),
        Key::Num8 => Some("8"),
        Key::Num9 => Some("9"),
        Key::A => Some("A"),
        Key::B => Some("B"),
        Key::C => Some("C"),
        Key::D => Some("D"),
        Key::E => Some("E"),
        Key::F => Some("F"),
        Key::G => Some("G"),
        Key::H => Some("H"),
        Key::I => Some("I"),
        Key::J => Some("J"),
        Key::K => Some("K"),
        Key::L => Some("L"),
        Key::M => Some("M"),
        Key::N => Some("N"),
        Key::O => Some("O"),
        Key::P => Some("P"),
        Key::Q => Some("Q"),
        Key::R => Some("R"),
        Key::S => Some("S"),
        Key::T => Some("T"),
        Key::U => Some("U"),
        Key::V => Some("V"),
        Key::W => Some("W"),
        Key::X => Some("X"),
        Key::Y => Some("Y"),
        Key::Z => Some("Z"),
        _ => None,
    }
}

/// Which modifier family a key belongs to: 1 Meta, 2 Alt, 3 Ctrl, 4 Shift; 0 for
/// any other key.
pub open spec fn modifier_group(key: Key) -> int {
    match key {
        Key::LeftMeta | Key::RightMeta => 1,
        Key::LeftAlt | Key::RightAlt => 2,
        Key::LeftCtrl | Key::RightCtrl => 3,
        Key::LeftShift | Key::RightShift => 4,
        _ => 0,
    }
}

/// Whether a key is one of the eight modifier keys.
pub fn is_modifier_key(key: Key) -> (r: bool)
    ensures
        r == (modifier_group(key) != 0),
{
    match key {
        Key::LeftMeta | Key::RightMeta | Key::LeftAlt | Key::RightAlt | Key::LeftCtrl
        | Key::RightCtrl | Key::LeftShift | Key::RightShift => true,
        _ => false,
    }
}

/// Whether two keys are the left and right (or the same) variant of one modifier.
pub open spec fn same_modifier(a: Key, b: Key) -> bool {
    modifier_group(a) != 0 && modifier_group(a) == modifier_group(b)
}

/// Whether two keys are the left and right (or the same) variant of one modifier.
pub fn is_same_modifier(a: Key, b: Key) -> (r: bool)
    ensures
        r == same_modifier(a, b),
{
    let ga: u8 = match a {
        Key::LeftMeta | Key::RightMeta => 1,
        Key::LeftAlt | Key::RightAlt => 2,
        Key::LeftCtrl | Key::RightCtrl => 3,
        Key::LeftShift | Key::RightShift => 4,
        _ => 0,
    };
    let gb: u8 = match b {
        Key::LeftMeta | Key::RightMeta => 1,
        Key::LeftAlt | Key::RightAlt => 2,
        Key::LeftCtrl | Key::RightCtrl => 3,
        Key::LeftShift | Key::RightShift => 4,
        _ => 0,
    };
    ga != 0 && ga == gb
}

/// The display name of a modifier's family ("Meta", "Alt", "Ctrl", "Shift").
pub open spec fn modifier_name_spec(key: Key) -> Option<Seq<char>> {
    match key {
        Key::LeftMeta | Key::RightMeta => Some("Meta"@),
        Key::LeftAlt | Key::RightAlt => Some("Alt"@),
        Key::LeftCtrl | Key::RightCtrl => Some("Ctrl"@),
        Key::LeftShift | Key::RightShift => Some("Shift"@),
        _ => None,
    }
}

/// The display name of a modifier's family; `None` for other keys.
pub fn modifier_key_to_name(key: Key) -> (r: Option<&'static str>)
    ensures
        opt_str_view(r) == modifier_name_spec(key),
{
    match key {
        Key::LeftMeta | Key::RightMeta => Some("Meta"),
        Key::LeftAlt | Key::RightAlt => Some("Alt"),
        Key::LeftCtrl | Key::RightCtrl => Some("Ctrl"),
        Key::LeftShift | Key::RightShift => Some("Shift"),
        _ => None,
    }
}


/// A hotkey: a single key, or a modifier held together with a key.
#[derive(Debug, Clone, Copy, PartialEq, Eq, Structural)]
pub struct Hotkey {
    pub modifier: Option<Key>,
    pub key: Key,
}

/// The hotkey that a name means. A name with a `+` is a combo: its last part is the
/// key and its first part the modifier that is tracked (further modifiers between
/// them are ignored); each part is trimmed and lowercased. A name without `+` is a
/// single key, lowercased only.
pub open spec fn hotkey_for_name(s: Seq<char>) -> Option<Hotkey> {
    if s.contains('+') {
        match key_for_name(lowercase(trim(after_last(s, '+')))) {
            Some(key) => match modifier_for_name(lowercase(trim(before_first(s, '+')))) {
                Some(m) => Some(Hotkey { modifier: Some(m), key }),
                None => None,
            },
            None => None,
        }
    } else {
        match key_for_name(lowercase(s)) {
            Some(key) => Some(Hotkey { modifier: None, key }),
            None => None,
        }
    }
}

/// Parses a hotkey name: single keys ("ScrollLock", "F9", "Pause") or combos
/// ("Meta+Z", "Ctrl+Space", "Alt+R", "Ctrl+Shift+Z", where the first modifier is the
/// one tracked).
pub fn parse_hotkey(name: &str) -> (r: Option<Hotkey>)
    ensures
        r == hotkey_for_name(name@),
{
    let v = chars_of(name);
    if contains_char(&v, '+') {
        let last = trim_chars(&chars_after_last(&v, '+'));
        let key = match parse_key_name(string_of(last.as_slice()).as_str()) {
            Some(k) => k,
            None => return None,
        };
        let first = trim_chars(&chars_before_first(&v, '+'));
        let modifier = match parse_modifier(string_of(first.as_slice()).as_str()) {
            Some(m) => m,
            None => return None,
        };
        Some(Hotkey { modifier: Some(modifier), key })
    } else {
        match parse_key_name(name) {
            Some(key) => Some(Hotkey { modifier: None, key }),
            None => None,
        }
    }
}


/// What one keyboard device has seen of the hotkey: whether the hotkey's modifier is
/// held, and whether the combo is down.
#[derive(Debug, Clone, Copy, PartialEq, Eq, Structural)]
pub struct HotkeyTracker {
    pub hotkey: Hotkey,
    pub modifier_held: bool,
    pub combo_active: bool,
}

/// The tracker after a key event (`value`: 1 down, 0 up, 2 repeat), and the hotkey
/// event it gives, if any.
///
/// With a modifier: either variant of the modifier sets `modifier_held` (down or
/// repeat) or clears it (up), and letting it go ends an active combo; the key, going
/// down while the modifier is held, starts the combo, and going up ends it. Without
/// one: the key going down presses, going up releases.
pub open spec fn track_spec(t: HotkeyTracker, key: Key, value: i32) -> (HotkeyTracker, Option<HotkeyEvent>) {
    match t.hotkey.modifier {
        Some(m) => {
            if key == m || same_modifier(key, m) {
                let held = value >= 1;
                if !held && t.combo_active {
                    (HotkeyTracker { modifier_held: held, combo_active: false, ..t }, Some(HotkeyEvent::Released))
                } else {
                    (HotkeyTracker { modifier_held: held, ..t }, None)
                }
            } else if key == t.hotkey.key {
                if value == 1 && t.modifier_held && !t.combo_active {
                    (HotkeyTracker { combo_active: true, ..t }, Some(HotkeyEvent::Pressed))
                } else if value == 0 && t.combo_active {
                    (HotkeyTracker { combo_active: false, ..t }, Some(HotkeyEvent::Released))
                } else {
                    (t, None)
                }
            } else {
                (t, None)
            }
        },
        None => {
            if key == t.hotkey.key && value == 1 {
                (t, Some(HotkeyEvent::Pressed))
            } else if key == t.hotkey.key && value == 0 {
                (t, Some(HotkeyEvent::Released))
            } else {
                (t, None)
            }
        },
    }
}

impl HotkeyTracker {
    /// A tracker for `hotkey` that has seen nothing yet.
    pub fn new(hotkey: Hotkey) -> (r: Self)
        ensures
            r.hotkey == hotkey,
            !r.modifier_held,
            !r.combo_active,
    {
        HotkeyTracker { hotkey, modifier_held: false, combo_active: false }
    }

    /// Takes in one key event from the device and gives the hotkey event it causes.
    pub fn on_key(&mut self, key: Key, value: i32) -> (r: Option<HotkeyEvent>)
        ensures
            (*final(self), r) == track_spec(*old(self), key, value),
    {
        match self.hotkey.modifier {
            Some(m) => {
                if key == m || is_same_modifier(key, m) {
                    self.modifier_held = value >= 1;
                    if !self.modifier_held && self.combo_active {
                        self.combo_active = false;
                        Some(HotkeyEvent::Released)
                    } else {
                        None
                    }
                } else if key == self.hotkey.key {
                    if value == 1 && self.modifier_held && !self.combo_active {
                        self.combo_active = true;
                        Some(HotkeyEvent::Pressed)
                    } else if value == 0 && self.combo_active {
                        self.combo_active = false;
                        Some(HotkeyEvent::Released)
                    } else {
                        None
                    }
                } else {
                    None
                }
            },
            None => {
                if key == self.hotkey.key {
                    if value == 1 {
                        Some(HotkeyEvent::Pressed)
                    } else if value == 0 {
                        Some(HotkeyEvent::Released)
                    } else {
                        None
                    }
                } else {
                    None
                }
            },
        }
    }
}

/// The tracker after a run of key events, and the hotkey events they give, in order.
pub open spec fn track_run(t: HotkeyTracker, keys: Seq<(Key, i32)>) -> (HotkeyTracker, Seq<HotkeyEvent>)
    decreases keys.len(),
{
    if keys.len() == 0 {
        (t, Seq::empty())
    } else {
        let (t1, ev) = track_spec(t, keys[0].0, keys[0].1);
        let (t2, rest) = track_run(t1, keys.drop_first());
        match ev {
            Some(e) => (t2, seq![e] + rest),
            None => (t2, rest),
        }
    }
}

/// Whether `events` alternate, starting with a press when the combo is up
/// (`active` false) and with a release when it is down.
pub open spec fn alternates(events: Seq<HotkeyEvent>, active: bool) -> bool
    decreases events.len(),
{
    if events.len() == 0 {
        true
    } else {
        (if active {
            events[0] == HotkeyEvent::Released
        } else {
            events[0] == HotkeyEvent::Pressed
        }) && alternates(events.drop_first(), !active)
    }
}

/// A combo hotkey never presses twice or releases twice in a row: from any tracker
/// state, whatever key events come, the hotkey events alternate, beginning with a
/// press if the combo was up and with a release if it was down; and afterwards the
/// combo is down exactly when the last event was a press (or, with no event, when it
/// was down before).
pub proof fn lemma_combo_events_alternate(t: HotkeyTracker, keys: Seq<(Key, i32)>)
    requires
        t.hotkey.modifier is Some,
    ensures
        alternates(track_run(t, keys).1, t.combo_active),
        track_run(t, keys).0.hotkey == t.hotkey,
        track_run(t, keys).0.combo_active == (if track_run(t, keys).1.len() == 0 {
            t.combo_active
        } else {
            track_run(t, keys).1.last() == HotkeyEvent::Pressed
        }),
    decreases keys.len(),
{
    if keys.len() > 0 {
        let (t1, ev) = track_spec(t, keys[0].0, keys[0].1);
        lemma_combo_events_alternate(t1, keys.drop_first());
        let (t2, rest) = track_run(t1, keys.drop_first());
        match ev {
            Some(e) => {
                let out = seq![e] + rest;
                assert(out.drop_first() =~= rest);
                if rest.len() > 0 {
                    assert(out.last() == rest.last());
                }
            },
            None => {},
        }
    }
}

/// A hotkey without a modifier answers its own key only: going down (value 1) presses
/// it, going up (value 0) releases it; a repeat, and every event of any other key,
/// give nothing; and the tracker's state never changes.
pub proof fn lemma_single_key_events(t: HotkeyTracker, key: Key, value: i32)
    requires
        t.hotkey.modifier is None,
    ensures
        track_spec(t, key, value).0 == t,
        track_spec(t, key, value).1 == Some(HotkeyEvent::Pressed) <==> (key == t.hotkey.key
            && value == 1),
        track_spec(t, key, value).1 == Some(HotkeyEvent::Released) <==> (key == t.hotkey.key
            && value == 0),
        key != t.hotkey.key ==> track_spec(t, key, value).1 is None,
        value != 0 && value != 1 ==> track_spec(t, key, value).1 is None,
{
}

/// The events as a sequence of zero or one.
pub open spec fn opt_event(e: Option<HotkeyEvent>) -> Seq<HotkeyEvent> {
    match e {
        Some(x) => seq![x],
        None => Seq::empty(),
    }
}

/// The hotkey event, if any, that the `i`-th key event gives, after the ones before.
pub open spec fn step_event(t: HotkeyTracker, keys: Seq<(Key, i32)>, i: int) -> Option<HotkeyEvent> {
    track_spec(track_run(t, keys.take(i)).0, keys[i].0, keys[i].1).1
}

/// The hotkey events that the first `n` key events give, in order.
pub open spec fn events_upto(t: HotkeyTracker, keys: Seq<(Key, i32)>, n: nat) -> Seq<HotkeyEvent>
    decreases n,
{
    if n == 0 {
        Seq::empty()
    } else {
        events_upto(t, keys, (n - 1) as nat) + opt_event(step_event(t, keys, n - 1))
    }
}

/// Whether `k` is the modifier `m` or its other-side variant.
pub open spec fn in_family(k: Key, m: Key) -> bool {
    k == m || same_modifier(k, m)
}

/// Whether the modifier family of `m` is down after `keys`: its latest key event
/// among them was down or a repeat (`held` where there is none).
pub open spec fn family_down_after(m: Key, keys: Seq<(Key, i32)>, held: bool) -> bool
    decreases keys.len(),
{
    if keys.len() == 0 {
        held
    } else if in_family(keys.last().0, m) {
        keys.last().1 >= 1
    } else {
        family_down_after(m, keys.drop_last(), held)
    }
}

proof fn lemma_track_run_push(t: HotkeyTracker, keys: Seq<(Key, i32)>, x: (Key, i32))
    ensures
        track_run(t, keys.push(x)) == (
            track_spec(track_run(t, keys).0, x.0, x.1).0,
            track_run(t, keys).1 + opt_event(track_spec(track_run(t, keys).0, x.0, x.1).1),
        ),
    decreases keys.len(),
{
    let k1 = keys.push(x);
    if keys.len() == 0 {
        assert(k1.drop_first() =~= Seq::<(Key, i32)>::empty());
        assert(k1[0] == x);
        let (t1, ev) = track_spec(t, x.0, x.1);
        assert(track_run(t1, k1.drop_first()) == (t1, Seq::<HotkeyEvent>::empty()));
        assert(track_run(t, keys) == (t, Seq::<HotkeyEvent>::empty()));
        assert(opt_event(ev) =~= Seq::<HotkeyEvent>::empty() + opt_event(ev));
        match ev {
            Some(e) => assert(seq![e] + Seq::<HotkeyEvent>::empty() =~= opt_event(ev)),
            None => {},
        }
    } else {
        let (t1, ev) = track_spec(t, keys[0].0, keys[0].1);
        assert(k1.drop_first() =~= keys.drop_first().push(x));
        assert(k1[0] == keys[0]);
        lemma_track_run_push(t1, keys.drop_first(), x);
        let (t2, rest) = track_run(t1, keys.drop_first());
        let last = opt_event(track_spec(t2, x.0, x.1).1);
        assert(track_run(t1, k1.drop_first()) == (track_spec(t2, x.0, x.1).0, rest + last));
        match ev {
            Some(e) => assert(seq![e] + (rest + last) =~= (seq![e] + rest) + last),
            None => {},
        }
    }
}

proof fn lemma_track_prefix(t: HotkeyTracker, keys: Seq<(Key, i32)>, m: Key, n: nat)
    requires
        t.hotkey.modifier == Some(m),
        n <= keys.len(),
    ensures
        track_run(t, keys.take(n as int)).1 == events_upto(t, keys, n),
        track_run(t, keys.take(n as int)).0.hotkey == t.hotkey,
        track_run(t, keys.take(n as int)).0.modifier_held == family_down_after(
            m,
            keys.take(n as int),
            t.modifier_held,
        ),
    decreases n,
{
    if n == 0 {
        assert(keys.take(0) =~= Seq::<(Key, i32)>::empty());
    } else {
        lemma_track_prefix(t, keys, m, (n - 1) as nat);
        let prev = keys.take(n - 1);
        assert(keys.take(n as int) =~= prev.push(keys[n - 1]));
        assert(keys.take(n as int).drop_last() =~= prev);
        lemma_track_run_push(t, prev, keys[n - 1]);
    }
}

/// What causes each hotkey event of a combo hotkey (modifier `m`): over any run of key
/// events, the events given are, in order, those of the single key events; a
/// `Pressed` comes only from the hotkey's key going down (value 1) while the latest
/// event of `m`'s family (either side) was down or a repeat; a `Released` only from
/// the hotkey's key going up (value 0) or a key of `m`'s family going up (value below
/// 1). From a fresh tracker
/// the events alternate, starting with `Pressed`.
pub proof fn lemma_combo_events_caused(t: HotkeyTracker, keys: Seq<(Key, i32)>, m: Key)
    requires
        t.hotkey.modifier == Some(m),
    ensures
        track_run(t, keys).1 == events_upto(t, keys, keys.len()),
        forall|i: int|
            0 <= i < keys.len() && #[trigger] step_event(t, keys, i) == Some(HotkeyEvent::Pressed)
                ==> keys[i].0 == t.hotkey.key && keys[i].1 == 1 && family_down_after(
                m,
                keys.take(i),
                t.modifier_held,
            ),
        forall|i: int|
            0 <= i < keys.len() && #[trigger] step_event(t, keys, i) == Some(HotkeyEvent::Released)
                ==> (keys[i].0 == t.hotkey.key && keys[i].1 == 0) || (in_family(keys[i].0, m)
                && keys[i].1 < 1),
        !t.combo_active ==> alternates(track_run(t, keys).1, false),
{
    lemma_track_prefix(t, keys, m, keys.len());
    assert(keys.take(keys.len() as int) =~= keys);
    assert forall|i: int|
        0 <= i < keys.len() && #[trigger] step_event(t, keys, i) == Some(HotkeyEvent::Pressed)
            implies keys[i].0 == t.hotkey.key && keys[i].1 == 1 && family_down_after(
            m,
            keys.take(i),
            t.modifier_held,
        ) by {
        lemma_track_prefix(t, keys, m, i as nat);
    }
    assert forall|i: int|
        0 <= i < keys.len() && #[trigger] step_event(t, keys, i) == Some(HotkeyEvent::Released)
            implies (keys[i].0 == t.hotkey.key && keys[i].1 == 0) || (in_family(keys[i].0, m)
            && keys[i].1 < 1) by {
        lemma_track_prefix(t, keys, m, i as nat);
    }
    lemma_combo_events_alternate(t, keys);
}


/// Whether `held` holds either variant of the modifier `m`.
pub open spec fn holds_modifier(held: Seq<Key>, m: Key) -> bool {
    exists|i: int| 0 <= i < held.len() && (same_modifier(#[trigger] held[i], m) || held[i] == m)
}

/// `held` without any variant of the modifier `m`.
pub open spec fn without_modifier(held: Seq<Key>, m: Key) -> Seq<Key>
    decreases held.len(),
{
    if held.len() == 0 {
        held
    } else {
        let rest = without_modifier(held.drop_last(), m);
        if !same_modifier(held.last(), m) && held.last() != m {
            rest.push(held.last())
        } else {
            rest
        }
    }
}

/// The combo string for the held modifiers and a key name: the held modifier
/// families in the order Meta, Ctrl, Alt, Shift, then the key, joined by `+`.
pub open spec fn combo_spec(held: Seq<Key>, name: Seq<char>) -> Seq<char> {
    (if holds_modifier(held, Key::LeftMeta) { "Meta+"@ } else { Seq::empty() }) + (if holds_modifier(
        held,
        Key::LeftCtrl,
    ) {
        "Ctrl+"@
    } else {
        Seq::empty()
    }) + (if holds_modifier(held, Key::LeftAlt) {
        "Alt+"@
    } else {
        Seq::empty()
    }) + (if holds_modifier(held, Key::LeftShift) {
        "Shift+"@
    } else {
        Seq::empty()
    }) + name
}

/// What a key event means while recording a hotkey.
#[derive(Debug, Clone, PartialEq, Eq)]
pub enum RecordOutcome {
    /// Keep listening.
    Continue,
    /// A key without a name was pressed: recording ends with nothing.
    Ignored,
    /// A named key was pressed: this is the recorded combo.
    Captured(String),
}

/// The outcome as a value: `None` to keep listening, `Some(None)` when recording ends
/// with nothing, `Some(Some(combo))` when it ends with a combo.
pub open spec fn outcome_view(o: RecordOutcome) -> Option<Option<Seq<char>>> {
    match o {
        RecordOutcome::Continue => None,
        RecordOutcome::Ignored => Some(None),
        RecordOutcome::Captured(s) => Some(Some(s@)),
    }
}

/// The held modifiers after a key event while recording, and what the event means.
/// A modifier going down is added unless a variant of it is held; going up, every
/// variant of it is dropped. Any other key going down ends the recording: with the
/// combo of the held modifiers and its name, or with nothing if it has no name.
pub open spec fn record_spec(held: Seq<Key>, key: Key, value: i32) -> (Seq<Key>, Option<Option<Seq<char>>>) {
    if modifier_group(key) != 0 {
        if value == 1 {
            (if holds_modifier(held, key) { held } else { held.push(key) }, None)
        } else if value == 0 {
            (without_modifier(held, key), None)
        } else {
            (held, None)
        }
    } else if value == 1 {
        match key_name_spec(key) {
            Some(name) => (held, Some(Some(combo_spec(held, name)))),
            None => (held, Some(None)),
        }
    } else {
        (held, None)
    }
}

/// Records the next hotkey combo typed on one device.
pub struct HotkeyRecorder {
    /// The modifiers held down, one per family.
    pub held_modifiers: Vec<Key>,
}

fn holds_modifier_exec(held: &Vec<Key>, m: Key) -> (r: bool)
    ensures
        r == holds_modifier(held@, m),
{
    let mut i: usize = 0;
    while i < held.len()
        invariant
            i <= held.len(),
            forall|j: int| 0 <= j < i ==> !(same_modifier(#[trigger] held@[j], m) || held@[j] == m),
        decreases held.len() - i,
    {
        if is_same_modifier(held[i], m) || held[i] == m {
            assert(same_modifier(held@[i as int], m) || held@[i as int] == m);
            return true;
        }
        i = i + 1;
    }
    false
}

impl HotkeyRecorder {
    /// A recorder with no modifier held.
    pub fn new() -> (r: Self)
        ensures
            r.held_modifiers@ == Seq::<Key>::empty(),
    {
        HotkeyRecorder { held_modifiers: Vec::new() }
    }

    /// Takes in one key event (`value`: 1 down, 0 up, 2 repeat).
    pub fn on_key(&mut self, key: Key, value: i32) -> (r: RecordOutcome)
        ensures
            (final(self).held_modifiers@, outcome_view(r)) == record_spec(
                old(self).held_modifiers@,
                key,
                value,
            ),
    {
        if is_modifier_key(key) {
            if value == 1 {
                if !holds_modifier_exec(&self.held_modifiers, key) {
                    self.held_modifiers.push(key);
                }
            } else if value == 0 {
                let mut kept: Vec<Key> = Vec::new();
                let mut i: usize = 0;
                while i < self.held_modifiers.len()
                    invariant
                        i <= self.held_modifiers.len(),
                        kept@ == without_modifier(self.held_modifiers@.take(i as int), key),
                    decreases self.held_modifiers.len() - i,
                {
                    let k = self.held_modifiers[i];
                    assert(self.held_modifiers@.take(i + 1).drop_last() =~= self.held_modifiers@.take(
                        i as int,
                    ));
                    if !is_same_modifier(k, key) && k != key {
                        kept.push(k);
                    }
                    i = i + 1;
                }
                assert(self.held_modifiers@.take(i as int) =~= self.held_modifiers@);
                self.held_modifiers = kept;
            }
            RecordOutcome::Continue
        } else if value == 1 {
            match key_to_name(key) {
                Some(name) => {
                    let mut combo: Vec<char> = Vec::new();
                    if holds_modifier_exec(&self.held_modifiers, Key::LeftMeta) {
                        push_str(&mut combo, "Meta+");
                    }
                    if holds_modifier_exec(&self.held_modifiers, Key::LeftCtrl) {
                        push_str(&mut combo, "Ctrl+");
                    }
                    if holds_modifier_exec(&self.held_modifiers, Key::LeftAlt) {
                        push_str(&mut combo, "Alt+");
                    }
                    if holds_modifier_exec(&self.held_modifiers, Key::LeftShift) {
                        push_str(&mut combo, "Shift+");
                    }
                    push_str(&mut combo, name);
                    assert(combo@ =~= combo_spec(self.held_modifiers@, name@));
                    RecordOutcome::Captured(string_of(combo.as_slice()))
                },
                None => RecordOutcome::Ignored,
            }
        } else {
            RecordOutcome::Continue
        }
    }
}


/// Held modifiers are modifier keys, one per family.
pub open spec fn one_per_family(held: Seq<Key>) -> bool {
    &&& forall|i: int| 0 <= i < held.len() ==> modifier_group(#[trigger] held[i]) != 0
    &&& forall|i: int, j: int|
        0 <= i < j < held.len() ==> modifier_group(#[trigger] held[i]) != modifier_group(
            #[trigger] held[j],
        )
}

proof fn lemma_without_modifier(held: Seq<Key>, m: Key)
    requires
        one_per_family(held),
        modifier_group(m) != 0,
    ensures
        one_per_family(without_modifier(held, m)),
        !holds_modifier(without_modifier(held, m), m),
        forall|i: int|
            0 <= i < without_modifier(held, m).len() ==> held.contains(
                #[trigger] without_modifier(held, m)[i],
            ),
    decreases held.len(),
{
    if held.len() > 0 {
        let init = held.drop_last();
        assert(one_per_family(init));
        lemma_without_modifier(init, m);
        let rest = without_modifier(init, m);
        if !same_modifier(held.last(), m) && held.last() != m {
            let r = rest.push(held.last());
            assert forall|i: int| 0 <= i < rest.len() implies modifier_group(#[trigger] rest[i])
                != modifier_group(held.last()) by {
                assert(init.contains(rest[i]));
                let j = choose|j: int| 0 <= j < init.len() && init[j] == rest[i];
                assert(held[j] == init[j]);
                assert(modifier_group(held[j]) != modifier_group(held[held.len() - 1]));
            }
            assert forall|i: int| 0 <= i < r.len() implies held.contains(#[trigger] r[i]) by {
                if i < rest.len() {
                    assert(init.contains(rest[i]));
                    let j = choose|j: int| 0 <= j < init.len() && init[j] == rest[i];
                    assert(held[j] == init[j]);
                } else {
                    assert(held[held.len() - 1] == r[i]);
                }
            }
            assert forall|i: int, j: int| 0 <= i < j < r.len() implies modifier_group(
                #[trigger] r[i],
            ) != modifier_group(#[trigger] r[j]) by {
                if j == rest.len() {
                    assert(r[j] == held.last());
                    assert(r[i] == rest[i]);
                } else {
                    assert(r[i] == rest[i] && r[j] == rest[j]);
                }
            }
            assert forall|i: int| 0 <= i < r.len() implies modifier_group(#[trigger] r[i]) != 0 by {
                assert(held.contains(r[i]));
            }
            if holds_modifier(r, m) {
                let i = choose|i: int|
                    0 <= i < r.len() && (same_modifier(#[trigger] r[i], m) || r[i] == m);
                if i < rest.len() {
                    assert(r[i] == rest[i]);
                }
            }
        } else {
            assert forall|i: int| 0 <= i < rest.len() implies held.contains(#[trigger] rest[i]) by {
                assert(init.contains(rest[i]));
                let j = choose|j: int| 0 <= j < init.len() && init[j] == rest[i];
                assert(held[j] == init[j]);
            }
        }
    }
}

/// While a hotkey is recorded, the held modifiers stay modifier keys, one per family,
/// whatever key events come; and a modifier that goes up is no longer held, in
/// either variant.
pub proof fn lemma_recorder_one_per_family(held: Seq<Key>, key: Key, value: i32)
    requires
        one_per_family(held),
    ensures
        one_per_family(record_spec(held, key, value).0),
        modifier_group(key) != 0 && value == 0 ==> !holds_modifier(
            record_spec(held, key, value).0,
            key,
        ),
{
    if modifier_group(key) != 0 {
        if value == 1 {
            if !holds_modifier(held, key) {
                let r = held.push(key);
                assert forall|i: int| 0 <= i < held.len() implies modifier_group(#[trigger] held[i])
                    != modifier_group(key) by {
                    if modifier_group(held[i]) == modifier_group(key) {
                        assert(same_modifier(held[i], key));
                    }
                }
                assert forall|i: int, j: int| 0 <= i < j < r.len() implies modifier_group(
                    #[trigger] r[i],
                ) != modifier_group(#[trigger] r[j]) by {
                    assert(r[i] == held[i]);
                    if j < held.len() {
                        assert(r[j] == held[j]);
                    }
                }
            }
        } else if value == 0 {
            lemma_without_modifier(held, key);
        }
    }
}






/// Whether `c` may stand in a key or modifier name: an ASCII letter or digit.
pub open spec fn is_name_char(c: char) -> bool {
    ('a' <= c && c <= 'z') || ('A' <= c && c <= 'Z') || ('0' <= c && c <= '9')
}

/// Whether every character of `n` is an ASCII letter or digit.
pub open spec fn plain_name(n: Seq<char>) -> bool {
    forall|i: int| 0 <= i < n.len() ==> is_name_char(#[trigger] n[i])
}

/// A plain name is ASCII, holds no `+`, and trimming leaves it as it is.
proof fn lemma_plain_name(n: Seq<char>)
    requires
        plain_name(n),
    ensures
        is_ascii_chars(n),
        !n.contains('+'),
        trim(n) == n,
        lowercase(n) == ascii_lower(n),
{
    assert(!n.contains('+')) by {
        if n.contains('+') {
            let i = choose|i: int| 0 <= i < n.len() && n[i] == '+';
            assert(is_name_char(n[i]));
        }
    }
    if n.len() > 0 {
        assert(is_name_char(n[0]));
        assert(is_name_char(n.last()));
    }
    assert(trim_start(n) == n);
    assert(trim_end(n) == n);
}

/// The characters of the names in the key tables.
proof fn lemma_table_names()
    ensures
        "0"@ =~= seq!['0'],
        "1"@ =~= seq!['1'],
        "2"@ =~= seq!['2'],
        "3"@ =~= seq!['3'],
        "4"@ =~= seq!['4'],
        "5"@ =~= seq!['5'],
        "6"@ =~= seq!['6'],
        "7"@ =~= seq!['7'],
        "8"@ =~= seq!['8'],
        "9"@ =~= seq!['9'],
        "a"@ =~= seq!['a'],
        "alt"@ =~= seq!['a', 'l', 't'],
        "altgr"@ =~= seq!['a', 'l', 't', 'g', 'r'],
        "b"@ =~= seq!['b'],
        "break"@ =~= seq!['b', 'r', 'e', 'a', 'k'],
        "c"@ =~= seq!['c'],
        "caps_lock"@ =~= seq!['c', 'a', 'p', 's', '_', 'l', 'o', 'c', 'k'],
        "capslock"@ =~= seq!['c', 'a', 'p', 's', 'l', 'o', 'c', 'k'],
        "control"@ =~= seq!['c', 'o', 'n', 't', 'r', 'o', 'l'],
        "ctrl"@ =~= seq!['c', 't', 'r', 'l'],
        "d"@ =~= seq!['d'],
        "e"@ =~= seq!['e'],
        "end"@ =~= seq!['e', 'n', 'd'],
        "esc"@ =~= seq!['e', 's', 'c'],
        "escape"@ =~= seq!['e', 's', 'c', 'a', 'p', 'e'],
        "f"@ =~= seq!['f'],
        "f1"@ =~= seq!['f', '1'],
        "f10"@ =~= seq!['f', '1', '0'],
        "f11"@ =~= seq!['f', '1', '1'],
        "f12"@ =~= seq!['f', '1', '2'],
        "f2"@ =~= seq!['f', '2'],
        "f3"@ =~= seq!['f', '3'],
        "f4"@ =~= seq!['f', '4'],
        "f5"@ =~= seq!['f', '5'],
        "f6"@ =~= seq!['f', '6'],
        "f7"@ =~= seq!['f', '7'],
        "f8"@ =~= seq!['f', '8'],
        "f9"@ =~= seq!['f', '9'],
        "g"@ =~= seq!['g'],
        "h"@ =~= seq!['h'],
        "home"@ =~= seq!['h', 'o', 'm', 'e'],
        "i"@ =~= seq!['i'],
        "insert"@ =~= seq!['i', 'n', 's', 'e', 'r', 't'],
        "j"@ =~= seq!['j'],
        "k"@ =~= seq!['k'],
        "l"@ =~= seq!['l'],
        "leftmeta"@ =~= seq!['l', 'e', 'f', 't', 'm', 'e', 't', 'a'],
        "m"@ =~= seq!['m'],
        "meta"@ =~= seq!['m', 'e', 't', 'a'],
        "minus"@ =~= seq!['m', 'i', 'n', 'u', 's'],
        "n"@ =~= seq!['n'],
        "num_lock"@ =~= seq!['n', 'u', 'm', '_', 'l', 'o', 'c', 'k'],
        "numlock"@ =~= seq!['n', 'u', 'm', 'l', 'o', 'c', 'k'],
        "o"@ =~= seq!['o'],
        "p"@ =~= seq!['p'],
        "pagedown"@ =~= seq!['p', 'a', 'g', 'e', 'd', 'o', 'w', 'n'],
        "pageup"@ =~= seq!['p', 'a', 'g', 'e', 'u', 'p'],
        "pause"@ =~= seq!['p', 'a', 'u', 's', 'e'],
        "q"@ =~= seq!['q'],
        "r"@ =~= seq!['r'],
        "right_alt"@ =~= seq!['r', 'i', 'g', 'h', 't', '_', 'a', 'l', 't'],
        "right_ctrl"@ =~= seq!['r', 'i', 'g', 'h', 't', '_', 'c', 't', 'r', 'l'],
        "rightalt"@ =~= seq!['r', 'i', 'g', 'h', 't', 'a', 'l', 't'],
        "rightctrl"@ =~= seq!['r', 'i', 'g', 'h', 't', 'c', 't', 'r', 'l'],
        "rightmeta"@ =~= seq!['r', 'i', 'g', 'h', 't', 'm', 'e', 't', 'a'],
        "s"@ =~= seq!['s'],
        "scroll_lock"@ =~= seq!['s', 'c', 'r', 'o', 'l', 'l', '_', 'l', 'o', 'c', 'k'],
        "scrolllock"@ =~= seq!['s', 'c', 'r', 'o', 'l', 'l', 'l', 'o', 'c', 'k'],
        "semicolon"@ =~= seq!['s', 'e', 'm', 'i', 'c', 'o', 'l', 'o', 'n'],
        "shift"@ =~= seq!['s', 'h', 'i', 'f', 't'],
        "space"@ =~= seq!['s', 'p', 'a', 'c', 'e'],
        "super"@ =~= seq!['s', 'u', 'p', 'e', 'r'],
        "super_l"@ =~= seq!['s', 'u', 'p', 'e', 'r', '_', 'l'],
        "super_r"@ =~= seq!['s', 'u', 'p', 'e', 'r', '_', 'r'],
        "t"@ =~= seq!['t'],
        "tab"@ =~= seq!['t', 'a', 'b'],
        "u"@ =~= seq!['u'],
        "v"@ =~= seq!['v'],
        "w"@ =~= seq!['w'],
        "win"@ =~= seq!['w', 'i', 'n'],
        "x"@ =~= seq!['x'],
        "y"@ =~= seq!['y'],
        "z"@ =~= seq!['z'],
{
    reveal_strlit("0");
    reveal_strlit("1");
    reveal_strlit("2");
    reveal_strlit("3");
    reveal_strlit("4");
    reveal_strlit("5");
    reveal_strlit("6");
    reveal_strlit("7");
    reveal_strlit("8");
    reveal_strlit("9");
    reveal_strlit("a");
    reveal_strlit("alt");
    reveal_strlit("altgr");
    reveal_strlit("b");
    reveal_strlit("break");
    reveal_strlit("c");
    reveal_strlit("caps_lock");
    reveal_strlit("capslock");
    reveal_strlit("control");
    reveal_strlit("ctrl");
    reveal_strlit("d");
    reveal_strlit("e");
    reveal_strlit("end");
    reveal_strlit("esc");
    reveal_strlit("escape");
    reveal_strlit("f");
    reveal_strlit("f1");
    reveal_strlit("f10");
    reveal_strlit("f11");
    reveal_strlit("f12");
    reveal_strlit("f2");
    reveal_strlit("f3");
    reveal_strlit("f4");
    reveal_strlit("f5");
    reveal_strlit("f6");
    reveal_strlit("f7");
    reveal_strlit("f8");
    reveal_strlit("f9");
    reveal_strlit("g");
    reveal_strlit("h");
    reveal_strlit("home");
    reveal_strlit("i");
    reveal_strlit("insert");
    reveal_strlit("j");
    reveal_strlit("k");
    reveal_strlit("l");
    reveal_strlit("leftmeta");
    reveal_strlit("m");
    reveal_strlit("meta");
    reveal_strlit("minus");
    reveal_strlit("n");
    reveal_strlit("num_lock");
    reveal_strlit("numlock");
    reveal_strlit("o");
    reveal_strlit("p");
    reveal_strlit("pagedown");
    reveal_strlit("pageup");
    reveal_strlit("pause");
    reveal_strlit("q");
    reveal_strlit("r");
    reveal_strlit("right_alt");
    reveal_strlit("right_ctrl");
    reveal_strlit("rightalt");
    reveal_strlit("rightctrl");
    reveal_strlit("rightmeta");
    reveal_strlit("s");
    reveal_strlit("scroll_lock");
    reveal_strlit("scrolllock");
    reveal_strlit("semicolon");
    reveal_strlit("shift");
    reveal_strlit("space");
    reveal_strlit("super");
    reveal_strlit("super_l");
    reveal_strlit("super_r");
    reveal_strlit("t");
    reveal_strlit("tab");
    reveal_strlit("u");
    reveal_strlit("v");
    reveal_strlit("w");
    reveal_strlit("win");
    reveal_strlit("x");
    reveal_strlit("y");
    reveal_strlit("z");
}

proof fn lemma_name_of_scrolllock()
    ensures
        key_for_name(ascii_lower("ScrollLock"@)) == Some(Key::ScrollLock),
        plain_name("ScrollLock"@),
{
    lemma_table_names();
    reveal_strlit("ScrollLock");
    let lower = ascii_lower("ScrollLock"@);
    assert(lower[0] == 's');
    assert(lower[1] == 'c');
    assert(lower[2] == 'r');
    assert(lower[3] == 'o');
    assert(lower[4] == 'l');
    assert(lower[5] == 'l');
    assert(lower[6] == 'l');
    assert(lower[7] == 'o');
    assert(lower[8] == 'c');
    assert(lower[9] == 'k');
    assert(lower =~= "scrolllock"@);
    assert(special_for_name(lower) == Some(Key::ScrollLock));
}

proof fn lemma_name_of_pause()
    ensures
        key_for_name(ascii_lower("Pause"@)) == Some(Key::Pause),
        plain_name("Pause"@),
{
    lemma_table_names();
    reveal_strlit("Pause");
    let lower = ascii_lower("Pause"@);
    assert(lower[0] == 'p');
    assert(lower[1] == 'a');
    assert(lower[2] == 'u');
    assert(lower[3] == 's');
    assert(lower[4] == 'e');
    assert(lower =~= "pause"@);
    assert(special_for_name(lower) == Some(Key::Pause));
}

proof fn lemma_name_of_insert()
    ensures
        key_for_name(ascii_lower("Insert"@)) == Some(Key::Insert),
        plain_name("Insert"@),
{
    lemma_table_names();
    reveal_strlit("Insert");
    let lower = ascii_lower("Insert"@);
    assert(lower[0] == 'i');
    assert(lower[1] == 'n');
    assert(lower[2] == 's');
    assert(lower[3] == 'e');
    assert(lower[4] == 'r');
    assert(lower[5] == 't');
    assert(lower =~= "insert"@);
    assert(special_for_name(lower) == Some(Key::Insert));
}

proof fn lemma_name_of_home()
    ensures
        key_for_name(ascii_lower("Home"@)) == Some(Key::Home),
        plain_name("Home"@),
{
    lemma_table_names();
    reveal_strlit("Home");
    let lower = ascii_lower("Home"@);
    assert(lower[0] == 'h');
    assert(lower[1] == 'o');
    assert(lower[2] == 'm');
    assert(lower[3] == 'e');
    assert(lower =~= "home"@);
    assert(special_for_name(lower) == Some(Key::Home));
}

proof fn lemma_name_of_end()
    ensures
        key_for_name(ascii_lower("End"@)) == Some(Key::End),
        plain_name("End"@),
{
    lemma_table_names();
    reveal_strlit("End");
    let lower = ascii_lower("End"@);
    assert(lower[0] == 'e');
    assert(lower[1] == 'n');
    assert(lower[2] == 'd');
    assert(lower =~= "end"@);
    assert(special_for_name(lower) == Some(Key::End));
}

proof fn lemma_name_of_pageup()
    ensures
        key_for_name(ascii_lower("PageUp"@)) == Some(Key::PageUp),
        plain_name("PageUp"@),
{
    lemma_table_names();
    reveal_strlit("PageUp");
    let lower = ascii_lower("PageUp"@);
    assert(lower[0] == 'p');
    assert(lower[1] == 'a');
    assert(lower[2] == 'g');
    assert(lower[3] == 'e');
    assert(lower[4] == 'u');
    assert(lower[5] == 'p');
    assert(lower =~= "pageup"@);
    assert(special_for_name(lower) == Some(Key::PageUp));
}

proof fn lemma_name_of_pagedown()
    ensures
        key_for_name(ascii_lower("PageDown"@)) == Some(Key::PageDown),
        plain_name("PageDown"@),
{
    lemma_table_names();
    reveal_strlit("PageDown");
    let lower = ascii_lower("PageDown"@);
    assert(lower[0] == 'p');
    assert(lower[1] == 'a');
    assert(lower[2] == 'g');
    assert(lower[3] == 'e');
    assert(lower[4] == 'd');
    assert(lower[5] == 'o');
    assert(lower[6] == 'w');
    assert(lower[7] == 'n');
    assert(lower =~= "pagedown"@);
    assert(special_for_name(lower) == Some(Key::PageDown));
}

proof fn lemma_name_of_space()
    ensures
        key_for_name(ascii_lower("Space"@)) == Some(Key::Space),
        plain_name("Space"@),
{
    lemma_table_names();
    reveal_strlit("Space");
    let lower = ascii_lower("Space"@);
    assert(lower[0] == 's');
    assert(lower[1] == 'p');
    assert(lower[2] == 'a');
    assert(lower[3] == 'c');
    assert(lower[4] == 'e');
    assert(lower =~= "space"@);
    assert(special_for_name(lower) == Some(Key::Space));
}

proof fn lemma_name_of_esc()
    ensures
        key_for_name(ascii_lower("Escape"@)) == Some(Key::Esc),
        plain_name("Escape"@),
{
    lemma_table_names();
    reveal_strlit("Escape");
    let lower = ascii_lower("Escape"@);
    assert(lower[0] == 'e');
    assert(lower[1] == 's');
    assert(lower[2] == 'c');
    assert(lower[3] == 'a');
    assert(lower[4] == 'p');
    assert(lower[5] == 'e');
    assert(lower =~= "escape"@);
    assert(special_for_name(lower) is None);
    assert(function_key_for_name(lower) is None);
    assert(lock_or_side_for_name(lower) == Some(Key::Esc));
}

proof fn lemma_name_of_tab()
    ensures
        key_for_name(ascii_lower("Tab"@)) == Some(Key::Tab),
        plain_name("Tab"@),
{
    lemma_table_names();
    reveal_strlit("Tab");
    let lower = ascii_lower("Tab"@);
    assert(lower[0] == 't');
    assert(lower[1] == 'a');
    assert(lower[2] == 'b');
    assert(lower =~= "tab"@);
    assert(special_for_name(lower) is None);
    assert(function_key_for_name(lower) is None);
    assert(lock_or_side_for_name(lower) == Some(Key::Tab));
}

proof fn lemma_name_of_f1()
    ensures
        key_for_name(ascii_lower("F1"@)) == Some(Key::F1),
        plain_name("F1"@),
{
    lemma_table_names();
    reveal_strlit("F1");
    let lower = ascii_lower("F1"@);
    assert(lower[0] == 'f');
    assert(lower[1] == '1');
    assert(lower =~= "f1"@);
    assert(special_for_name(lower) is None);
    assert(function_key_for_name(lower) == Some(Key::F1));
}

proof fn lemma_name_of_f2()
    ensures
        key_for_name(ascii_lower("F2"@)) == Some(Key::F2),
        plain_name("F2"@),
{
    lemma_table_names();
    reveal_strlit("F2");
    let lower = ascii_lower("F2"@);
    assert(lower[0] == 'f');
    assert(lower[1] == '2');
    assert(lower =~= "f2"@);
    assert(special_for_name(lower) is None);
    assert(function_key_for_name(lower) == Some(Key::F2));
}

proof fn lemma_name_of_f3()
    ensures
        key_for_name(ascii_lower("F3"@)) == Some(Key::F3),
        plain_name("F3"@),
{
    lemma_table_names();
    reveal_strlit("F3");
    let lower = ascii_lower("F3"@);
    assert(lower[0] == 'f');
    assert(lower[1] == '3');
    assert(lower =~= "f3"@);
    assert(special_for_name(lower) is None);
    assert(function_key_for_name(lower) == Some(Key::F3));
}

proof fn lemma_name_of_f4()
    ensures
        key_for_name(ascii_lower("F4"@)) == Some(Key::F4),
        plain_name("F4"@),
{
    lemma_table_names();
    reveal_strlit("F4");
    let lower = ascii_lower("F4"@);
    assert(lower[0] == 'f');
    assert(lower[1] == '4');
    assert(lower =~= "f4"@);
    assert(special_for_name(lower) is None);
    assert(function_key_for_name(lower) == Some(Key::F4));
}

proof fn lemma_name_of_f5()
    ensures
        key_for_name(ascii_lower("F5"@)) == Some(Key::F5),
        plain_name("F5"@),
{
    lemma_table_names();
    reveal_strlit("F5");
    let lower = ascii_lower("F5"@);
    assert(lower[0] == 'f');
    assert(lower[1] == '5');
    assert(lower =~= "f5"@);
    assert(special_for_name(lower) is None);
    assert(function_key_for_name(lower) == Some(Key::F5));
}

proof fn lemma_name_of_f6()
    ensures
        key_for_name(ascii_lower("F6"@)) == Some(Key::F6),
        plain_name("F6"@),
{
    lemma_table_names();
    reveal_strlit("F6");
    let lower = ascii_lower("F6"@);
    assert(lower[0] == 'f');
    assert(lower[1] == '6');
    assert(lower =~= "f6"@);
    assert(special_for_name(lower) is None);
    assert(function_key_for_name(lower) == Some(Key::F6));
}

proof fn lemma_name_of_f7()
    ensures
        key_for_name(ascii_lower("F7"@)) == Some(Key::F7),
        plain_name("F7"@),
{
    lemma_table_names();
    reveal_strlit("F7");
    let lower = ascii_lower("F7"@);
    assert(lower[0] == 'f');
    assert(lower[1] == '7');
    assert(lower =~= "f7"@);
    assert(special_for_name(lower) is None);
    assert(function_key_for_name(lower) == Some(Key::F7));
}

proof fn lemma_name_of_f8()
    ensures
        key_for_name(ascii_lower("F8"@)) == Some(Key::F8),
        plain_name("F8"@),
{
    lemma_table_names();
    reveal_strlit("F8");
    let lower = ascii_lower("F8"@);
    assert(lower[0] == 'f');
    assert(lower[1] == '8');
    assert(lower =~= "f8"@);
    assert(special_for_name(lower) is None);
    assert(function_key_for_name(lower) == Some(Key::F8));
}

proof fn lemma_name_of_f9()
    ensures
        key_for_name(ascii_lower("F9"@)) == Some(Key::F9),
        plain_name("F9"@),
{
    lemma_table_names();
    reveal_strlit("F9");
    let lower = ascii_lower("F9"@);
    assert(lower[0] == 'f');
    assert(lower[1] == '9');
    assert(lower =~= "f9"@);
    assert(special_for_name(lower) is None);
    assert(function_key_for_name(lower) == Some(Key::F9));
}

proof fn lemma_name_of_f10()
    ensures
        key_for_name(ascii_lower("F10"@)) == Some(Key::F10),
        plain_name("F10"@),
{
    lemma_table_names();
    reveal_strlit("F10");
    let lower = ascii_lower("F10"@);
    assert(lower[0] == 'f');
    assert(lower[1] == '1');
    assert(lower[2] == '0');
    assert(lower =~= "f10"@);
    assert(special_for_name(lower) is None);
    assert(function_key_for_name(lower) == Some(Key::F10));
}

proof fn lemma_name_of_f11()
    ensures
        key_for_name(ascii_lower("F11"@)) == Some(Key::F11),
        plain_name("F11"@),
{
    lemma_table_names();
    reveal_strlit("F11");
    let lower = ascii_lower("F11"@);
    assert(lower[0] == 'f');
    assert(lower[1] == '1');
    assert(lower[2] == '1');
    assert(lower =~= "f11"@);
    assert(special_for_name(lower) is None);
    assert(function_key_for_name(lower) == Some(Key::F11));
}

proof fn lemma_name_of_f12()
    ensures
        key_for_name(ascii_lower("F12"@)) == Some(Key::F12),
        plain_name("F12"@),
{
    lemma_table_names();
    reveal_strlit("F12");
    let lower = ascii_lower("F12"@);
    assert(lower[0] == 'f');
    assert(lower[1] == '1');
    assert(lower[2] == '2');
    assert(lower =~= "f12"@);
    assert(special_for_name(lower) is None);
    assert(function_key_for_name(lower) == Some(Key::F12));
}

proof fn lemma_name_of_capslock()
    ensures
        key_for_name(ascii_lower("CapsLock"@)) == Some(Key::CapsLock),
        plain_name("CapsLock"@),
{
    lemma_table_names();
    reveal_strlit("CapsLock");
    let lower = ascii_lower("CapsLock"@);
    assert(lower[0] == 'c');
    assert(lower[1] == 'a');
    assert(lower[2] == 'p');
    assert(lower[3] == 's');
    assert(lower[4] == 'l');
    assert(lower[5] == 'o');
    assert(lower[6] == 'c');
    assert(lower[7] == 'k');
    assert(lower =~= "capslock"@);
    assert(special_for_name(lower) is None);
    assert(function_key_for_name(lower) is None);
    assert(lock_or_side_for_name(lower) == Some(Key::CapsLock));
}

proof fn lemma_name_of_numlock()
    ensures
        key_for_name(ascii_lower("NumLock"@)) == Some(Key::NumLock),
        plain_name("NumLock"@),
{
    lemma_table_names();
    reveal_strlit("NumLock");
    let lower = ascii_lower("NumLock"@);
    assert(lower[0] == 'n');
    assert(lower[1] == 'u');
    assert(lower[2] == 'm');
    assert(lower[3] == 'l');
    assert(lower[4] == 'o');
    assert(lower[5] == 'c');
    assert(lower[6] == 'k');
    assert(lower =~= "numlock"@);
    assert(special_for_name(lower) is None);
    assert(function_key_for_name(lower) is None);
    assert(lock_or_side_for_name(lower) == Some(Key::NumLock));
}

proof fn lemma_name_of_minus()
    ensures
        key_for_name(ascii_lower("Minus"@)) == Some(Key::Minus),
        plain_name("Minus"@),
{
    lemma_table_names();
    reveal_strlit("Minus");
    let lower = ascii_lower("Minus"@);
    assert(lower[0] == 'm');
    assert(lower[1] == 'i');
    assert(lower[2] == 'n');
    assert(lower[3] == 'u');
    assert(lower[4] == 's');
    assert(lower =~= "minus"@);
    assert(special_for_name(lower) is None);
    assert(function_key_for_name(lower) is None);
    assert(lock_or_side_for_name(lower) == Some(Key::Minus));
}

proof fn lemma_name_of_semicolon()
    ensures
        key_for_name(ascii_lower("Semicolon"@)) == Some(Key::Semicolon),
        plain_name("Semicolon"@),
{
    lemma_table_names();
    reveal_strlit("Semicolon");
    let lower = ascii_lower("Semicolon"@);
    assert(lower[0] == 's');
    assert(lower[1] == 'e');
    assert(lower[2] == 'm');
    assert(lower[3] == 'i');
    assert(lower[4] == 'c');
    assert(lower[5] == 'o');
    assert(lower[6] == 'l');
    assert(lower[7] == 'o');
    assert(lower[8] == 'n');
    assert(lower =~= "semicolon"@);
    assert(special_for_name(lower) is None);
    assert(function_key_for_name(lower) is None);
    assert(lock_or_side_for_name(lower) is None);
    assert(digit_for_name(lower) == Some(Key::Semicolon));
}

proof fn lemma_name_of_num0()
    ensures
        key_for_name(ascii_lower("0"@)) == Some(Key::Num0),
        plain_name("0"@),
{
    lemma_table_names();
    reveal_strlit("0");
    let lower = ascii_lower("0"@);
    assert(lower[0] == '0');
    assert(lower =~= "0"@);
    assert(special_for_name(lower) is None);
    assert(function_key_for_name(lower) is None);
    assert(lock_or_side_for_name(lower) is None);
    assert(digit_for_name(lower) == Some(Key::Num0));
}

proof fn lemma_name_of_num1()
    ensures
        key_for_name(ascii_lower("1"@)) == Some(Key::Num1),
        plain_name("1"@),
{
    lemma_table_names();
    reveal_strlit("1");
    let lower = ascii_lower("1"@);
    assert(lower[0] == '1');
    assert(lower =~= "1"@);
    assert(special_for_name(lower) is None);
    assert(function_key_for_name(lower) is None);
    assert(lock_or_side_for_name(lower) is None);
    assert(digit_for_name(lower) == Some(Key::Num1));
}

proof fn lemma_name_of_num2()
    ensures
        key_for_name(ascii_lower("2"@)) == Some(Key::Num2),
        plain_name("2"@),
{
    lemma_table_names();
    reveal_strlit("2");
    let lower = ascii_lower("2"@);
    assert(lower[0] == '2');
    assert(lower =~= "2"@);
    assert(special_for_name(lower) is None);
    assert(function_key_for_name(lower) is None);
    assert(lock_or_side_for_name(lower) is None);
    assert(digit_for_name(lower) == Some(Key::Num2));
}

proof fn lemma_name_of_num3()
    ensures
        key_for_name(ascii_lower("3"@)) == Some(Key::Num3),
        plain_name("3"@),
{
    lemma_table_names();
    reveal_strlit("3");
    let lower = ascii_lower("3"@);
    assert(lower[0] == '3');
    assert(lower =~= "3"@);
    assert(special_for_name(lower) is None);
    assert(function_key_for_name(lower) is None);
    assert(lock_or_side_for_name(lower) is None);
    assert(digit_for_name(lower) == Some(Key::Num3));
}

proof fn lemma_name_of_num4()
    ensures
        key_for_name(ascii_lower("4"@)) == Some(Key::Num4),
        plain_name("4"@),
{
    lemma_table_names();
    reveal_strlit("4");
    let lower = ascii_lower("4"@);
    assert(lower[0] == '4');
    assert(lower =~= "4"@);
    assert(special_for_name(lower) is None);
    assert(function_key_for_name(lower) is None);
    assert(lock_or_side_for_name(lower) is None);
    assert(digit_for_name(lower) == Some(Key::Num4));
}

proof fn lemma_name_of_num5()
    ensures
        key_for_name(ascii_lower("5"@)) == Some(Key::Num5),
        plain_name("5"@),
{
    lemma_table_names();
    reveal_strlit("5");
    let lower = ascii_lower("5"@);
    assert(lower[0] == '5');
    assert(lower =~= "5"@);
    assert(special_for_name(lower) is None);
    assert(function_key_for_name(lower) is None);
    assert(lock_or_side_for_name(lower) is None);
    assert(digit_for_name(lower) == Some(Key::Num5));
}

proof fn lemma_name_of_num6()
    ensures
        key_for_name(ascii_lower("6"@)) == Some(Key::Num6),
        plain_name("6"@),
{
    lemma_table_names();
    reveal_strlit("6");
    let lower = ascii_lower("6"@);
    assert(lower[0] == '6');
    assert(lower =~= "6"@);
    assert(special_for_name(lower) is None);
    assert(function_key_for_name(lower) is None);
    assert(lock_or_side_for_name(lower) is None);
    assert(digit_for_name(lower) == Some(Key::Num6));
}

proof fn lemma_name_of_num7()
    ensures
        key_for_name(ascii_lower("7"@)) == Some(Key::Num7),
        plain_name("7"@),
{
    lemma_table_names();
    reveal_strlit("7");
    let lower = ascii_lower("7"@);
    assert(lower[0] == '7');
    assert(lower =~= "7"@);
    assert(special_for_name(lower) is None);
    assert(function_key_for_name(lower) is None);
    assert(lock_or_side_for_name(lower) is None);
    assert(digit_for_name(lower) == Some(Key::Num7));
}

proof fn lemma_name_of_num8()
    ensures
        key_for_name(ascii_lower("8"@)) == Some(Key::Num8),
        plain_name("8"@),
{
    lemma_table_names();
    reveal_strlit("8");
    let lower = ascii_lower("8"@);
    assert(lower[0] == '8');
    assert(lower =~= "8"@);
    assert(special_for_name(lower) is None);
    assert(function_key_for_name(lower) is None);
    assert(lock_or_side_for_name(lower) is None);
    assert(digit_for_name(lower) == Some(Key::Num8));
}

proof fn lemma_name_of_num9()
    ensures
        key_for_name(ascii_lower("9"@)) == Some(Key::Num9),
        plain_name("9"@),
{
    lemma_table_names();
    reveal_strlit("9");
    let lower = ascii_lower("9"@);
    assert(lower[0] == '9');
    assert(lower =~= "9"@);
    assert(special_for_name(lower) is None);
    assert(function_key_for_name(lower) is None);
    assert(lock_or_side_for_name(lower) is None);
    assert(digit_for_name(lower) is None);
    assert(letter_for_name(lower) == Some(Key::Num9));
}

proof fn lemma_name_of_a()
    ensures
        key_for_name(ascii_lower("A"@)) == Some(Key::A),
        plain_name("A"@),
{
    lemma_table_names();
    reveal_strlit("A");
    let lower = ascii_lower("A"@);
    assert(lower[0] == 'a');
    assert(lower =~= "a"@);
    assert(special_for_name(lower) is None);
    assert(function_key_for_name(lower) is None);
    assert(lock_or_side_for_name(lower) is None);
    assert(digit_for_name(lower) is None);
    assert(letter_for_name(lower) == Some(Key::A));
}

proof fn lemma_name_of_b()
    ensures
        key_for_name(ascii_lower("B"@)) == Some(Key::B),
        plain_name("B"@),
{
    lemma_table_names();
    reveal_strlit("B");
    let lower = ascii_lower("B"@);
    assert(lower[0] == 'b');
    assert(lower =~= "b"@);
    assert(special_for_name(lower) is None);
    assert(function_key_for_name(lower) is None);
    assert(lock_or_side_for_name(lower) is None);
    assert(digit_for_name(lower) is None);
    assert(letter_for_name(lower) == Some(Key::B));
}

proof fn lemma_name_of_c()
    ensures
        key_for_name(ascii_lower("C"@)) == Some(Key::C),
        plain_name("C"@),
{
    lemma_table_names();
    reveal_strlit("C");
    let lower = ascii_lower("C"@);
    assert(lower[0] == 'c');
    assert(lower =~= "c"@);
    assert(special_for_name(lower) is None);
    assert(function_key_for_name(lower) is None);
    assert(lock_or_side_for_name(lower) is None);
    assert(digit_for_name(lower) is None);
    assert(letter_for_name(lower) == Some(Key::C));
}

proof fn lemma_name_of_d()
    ensures
        key_for_name(ascii_lower("D"@)) == Some(Key::D),
        plain_name("D"@),
{
    lemma_table_names();
    reveal_strlit("D");
    let lower = ascii_lower("D"@);
    assert(lower[0] == 'd');
    assert(lower =~= "d"@);
    assert(special_for_name(lower) is None);
    assert(function_key_for_name(lower) is None);
    assert(lock_or_side_for_name(lower) is None);
    assert(digit_for_name(lower) is None);
    assert(letter_for_name(lower) == Some(Key::D));
}

proof fn lemma_name_of_e()
    ensures
        key_for_name(ascii_lower("E"@)) == Some(Key::E),
        plain_name("E"@),
{
    lemma_table_names();
    reveal_strlit("E");
    let lower = ascii_lower("E"@);
    assert(lower[0] == 'e');
    assert(lower =~= "e"@);
    assert(special_for_name(lower) is None);
    assert(function_key_for_name(lower) is None);
    assert(lock_or_side_for_name(lower) is None);
    assert(digit_for_name(lower) is None);
    assert(letter_for_name(lower) == Some(Key::E));
}

proof fn lemma_name_of_f()
    ensures
        key_for_name(ascii_lower("F"@)) == Some(Key::F),
        plain_name("F"@),
{
    lemma_table_names();
    reveal_strlit("F");
    let lower = ascii_lower("F"@);
    assert(lower[0] == 'f');
    assert(lower =~= "f"@);
    assert(special_for_name(lower) is None);
    assert(function_key_for_name(lower) is None);
    assert(lock_or_side_for_name(lower) is None);
    assert(digit_for_name(lower) is None);
    assert(letter_for_name(lower) == Some(Key::F));
}

proof fn lemma_name_of_g()
    ensures
        key_for_name(ascii_lower("G"@)) == Some(Key::G),
        plain_name("G"@),
{
    lemma_table_names();
    reveal_strlit("G");
    let lower = ascii_lower("G"@);
    assert(lower[0] == 'g');
    assert(lower =~= "g"@);
    assert(special_for_name(lower) is None);
    assert(function_key_for_name(lower) is None);
    assert(lock_or_side_for_name(lower) is None);
    assert(digit_for_name(lower) is None);
    assert(letter_for_name(lower) == Some(Key::G));
}

proof fn lemma_name_of_h()
    ensures
        key_for_name(ascii_lower("H"@)) == Some(Key::H),
        plain_name("H"@),
{
    lemma_table_names();
    reveal_strlit("H");
    let lower = ascii_lower("H"@);
    assert(lower[0] == 'h');
    assert(lower =~= "h"@);
    assert(special_for_name(lower) is None);
    assert(function_key_for_name(lower) is None);
    assert(lock_or_side_for_name(lower) is None);
    assert(digit_for_name(lower) is None);
    assert(letter_for_name(lower) == Some(Key::H));
}

proof fn lemma_name_of_i()
    ensures
        key_for_name(ascii_lower("I"@)) == Some(Key::I),
        plain_name("I"@),
{
    lemma_table_names();
    reveal_strlit("I");
    let lower = ascii_lower("I"@);
    assert(lower[0] == 'i');
    assert(lower =~= "i"@);
    assert(special_for_name(lower) is None);
    assert(function_key_for_name(lower) is None);
    assert(lock_or_side_for_name(lower) is None);
    assert(digit_for_name(lower) is None);
    assert(letter_for_name(lower) == Some(Key::I));
}

proof fn lemma_name_of_j()
    ensures
        key_for_name(ascii_lower("J"@)) == Some(Key::J),
        plain_name("J"@),
{
    lemma_table_names();
    reveal_strlit("J");
    let lower = ascii_lower("J"@);
    assert(lower[0] == 'j');
    assert(lower =~= "j"@);
    assert(special_for_name(lower) is None);
    assert(function_key_for_name(lower) is None);
    assert(lock_or_side_for_name(lower) is None);
    assert(digit_for_name(lower) is None);
    assert(letter_for_name(lower) == Some(Key::J));
}

proof fn lemma_name_of_k()
    ensures
        key_for_name(ascii_lower("K"@)) == Some(Key::K),
        plain_name("K"@),
{
    lemma_table_names();
    reveal_strlit("K");
    let lower = ascii_lower("K"@);
    assert(lower[0] == 'k');
    assert(lower =~= "k"@);
    assert(special_for_name(lower) is None);
    assert(function_key_for_name(lower) is None);
    assert(lock_or_side_for_name(lower) is None);
    assert(digit_for_name(lower) is None);
    assert(letter_for_name(lower) == Some(Key::K));
}

proof fn lemma_name_of_l()
    ensures
        key_for_name(ascii_lower("L"@)) == Some(Key::L),
        plain_name("L"@),
{
    lemma_table_names();
    reveal_strlit("L");
    let lower = ascii_lower("L"@);
    assert(lower[0] == 'l');
    assert(lower =~= "l"@);
    assert(special_for_name(lower) is None);
    assert(function_key_for_name(lower) is None);
    assert(lock_or_side_for_name(lower) is None);
    assert(digit_for_name(lower) is None);
    assert(letter_for_name(lower) == Some(Key::L));
}

proof fn lemma_name_of_m()
    ensures
        key_for_name(ascii_lower("M"@)) == Some(Key::M),
        plain_name("M"@),
{
    lemma_table_names();
    reveal_strlit("M");
    let lower = ascii_lower("M"@);
    assert(lower[0] == 'm');
    assert(lower =~= "m"@);
    assert(special_for_name(lower) is None);
    assert(function_key_for_name(lower) is None);
    assert(lock_or_side_for_name(lower) is None);
    assert(digit_for_name(lower) is None);
    assert(letter_for_name(lower) == Some(Key::M));
}

proof fn lemma_name_of_n()
    ensures
        key_for_name(ascii_lower("N"@)) == Some(Key::N),
        plain_name("N"@),
{
    lemma_table_names();
    reveal_strlit("N");
    let lower = ascii_lower("N"@);
    assert(lower[0] == 'n');
    assert(lower =~= "n"@);
    assert(special_for_name(lower) is None);
    assert(function_key_for_name(lower) is None);
    assert(lock_or_side_for_name(lower) is None);
    assert(digit_for_name(lower) is None);
    assert(letter_for_name(lower) == Some(Key::N));
}

proof fn lemma_name_of_o()
    ensures
        key_for_name(ascii_lower("O"@)) == Some(Key::O),
        plain_name("O"@),
{
    lemma_table_names();
    reveal_strlit("O");
    let lower = ascii_lower("O"@);
    assert(lower[0] == 'o');
    assert(lower =~= "o"@);
    assert(special_for_name(lower) is None);
    assert(function_key_for_name(lower) is None);
    assert(lock_or_side_for_name(lower) is None);
    assert(digit_for_name(lower) is None);
    assert(letter_for_name(lower) == Some(Key::O));
}

proof fn lemma_name_of_p()
    ensures
        key_for_name(ascii_lower("P"@)) == Some(Key::P),
        plain_name("P"@),
{
    lemma_table_names();
    reveal_strlit("P");
    let lower = ascii_lower("P"@);
    assert(lower[0] == 'p');
    assert(lower =~= "p"@);
    assert(special_for_name(lower) is None);
    assert(function_key_for_name(lower) is None);
    assert(lock_or_side_for_name(lower) is None);
    assert(digit_for_name(lower) is None);
    assert(letter_for_name(lower) == Some(Key::P));
}

proof fn lemma_name_of_q()
    ensures
        key_for_name(ascii_lower("Q"@)) == Some(Key::Q),
        plain_name("Q"@),
{
    lemma_table_names();
    reveal_strlit("Q");
    let lower = ascii_lower("Q"@);
    assert(lower[0] == 'q');
    assert(lower =~= "q"@);
    assert(special_for_name(lower) is None);
    assert(function_key_for_name(lower) is None);
    assert(lock_or_side_for_name(lower) is None);
    assert(digit_for_name(lower) is None);
    assert(letter_for_name(lower) == Some(Key::Q));
}

proof fn lemma_name_of_r()
    ensures
        key_for_name(ascii_lower("R"@)) == Some(Key::R),
        plain_name("R"@),
{
    lemma_table_names();
    reveal_strlit("R");
    let lower = ascii_lower("R"@);
    assert(lower[0] == 'r');
    assert(lower =~= "r"@);
    assert(special_for_name(lower) is None);
    assert(function_key_for_name(lower) is None);
    assert(lock_or_side_for_name(lower) is None);
    assert(digit_for_name(lower) is None);
    assert(letter_for_name(lower) == Some(Key::R));
}

proof fn lemma_name_of_s()
    ensures
        key_for_name(ascii_lower("S"@)) == Some(Key::S),
        plain_name("S"@),
{
    lemma_table_names();
    reveal_strlit("S");
    let lower = ascii_lower("S"@);
    assert(lower[0] == 's');
    assert(lower =~= "s"@);
    assert(special_for_name(lower) is None);
    assert(function_key_for_name(lower) is None);
    assert(lock_or_side_for_name(lower) is None);
    assert(digit_for_name(lower) is None);
    assert(letter_for_name(lower) == Some(Key::S));
}

proof fn lemma_name_of_t()
    ensures
        key_for_name(ascii_lower("T"@)) == Some(Key::T),
        plain_name("T"@),
{
    lemma_table_names();
    reveal_strlit("T");
    let lower = ascii_lower("T"@);
    assert(lower[0] == 't');
    assert(lower =~= "t"@);
    assert(special_for_name(lower) is None);
    assert(function_key_for_name(lower) is None);
    assert(lock_or_side_for_name(lower) is None);
    assert(digit_for_name(lower) is None);
    assert(letter_for_name(lower) == Some(Key::T));
}

proof fn lemma_name_of_u()
    ensures
        key_for_name(ascii_lower("U"@)) == Some(Key::U),
        plain_name("U"@),
{
    lemma_table_names();
    reveal_strlit("U");
    let lower = ascii_lower("U"@);
    assert(lower[0] == 'u');
    assert(lower =~= "u"@);
    assert(special_for_name(lower) is None);
    assert(function_key_for_name(lower) is None);
    assert(lock_or_side_for_name(lower) is None);
    assert(digit_for_name(lower) is None);
    assert(letter_for_name(lower) == Some(Key::U));
}

proof fn lemma_name_of_v()
    ensures
        key_for_name(ascii_lower("V"@)) == Some(Key::V),
        plain_name("V"@),
{
    lemma_table_names();
    reveal_strlit("V");
    let lower = ascii_lower("V"@);
    assert(lower[0] == 'v');
    assert(lower =~= "v"@);
    assert(special_for_name(lower) is None);
    assert(function_key_for_name(lower) is None);
    assert(lock_or_side_for_name(lower) is None);
    assert(digit_for_name(lower) is None);
    assert(letter_for_name(lower) == Some(Key::V));
}

proof fn lemma_name_of_w()
    ensures
        key_for_name(ascii_lower("W"@)) == Some(Key::W),
        plain_name("W"@),
{
    lemma_table_names();
    reveal_strlit("W");
    let lower = ascii_lower("W"@);
    assert(lower[0] == 'w');
    assert(lower =~= "w"@);
    assert(special_for_name(lower) is None);
    assert(function_key_for_name(lower) is None);
    assert(lock_or_side_for_name(lower) is None);
    assert(digit_for_name(lower) is None);
    assert(letter_for_name(lower) == Some(Key::W));
}

proof fn lemma_name_of_x()
    ensures
        key_for_name(ascii_lower("X"@)) == Some(Key::X),
        plain_name("X"@),
{
    lemma_table_names();
    reveal_strlit("X");
    let lower = ascii_lower("X"@);
    assert(lower[0] == 'x');
    assert(lower =~= "x"@);
    assert(special_for_name(lower) is None);
    assert(function_key_for_name(lower) is None);
    assert(lock_or_side_for_name(lower) is None);
    assert(digit_for_name(lower) is None);
    assert(letter_for_name(lower) == Some(Key::X));
}

proof fn lemma_name_of_y()
    ensures
        key_for_name(ascii_lower("Y"@)) == Some(Key::Y),
        plain_name("Y"@),
{
    lemma_table_names();
    reveal_strlit("Y");
    let lower = ascii_lower("Y"@);
    assert(lower[0] == 'y');
    assert(lower =~= "y"@);
    assert(special_for_name(lower) is None);
    assert(function_key_for_name(lower) is None);
    assert(lock_or_side_for_name(lower) is None);
    assert(digit_for_name(lower) is None);
    assert(letter_for_name(lower) == Some(Key::Y));
}

proof fn lemma_name_of_z()
    ensures
        key_for_name(ascii_lower("Z"@)) == Some(Key::Z),
        plain_name("Z"@),
{
    lemma_table_names();
    reveal_strlit("Z");
    let lower = ascii_lower("Z"@);
    assert(lower[0] == 'z');
    assert(lower =~= "z"@);
    assert(special_for_name(lower) is None);
    assert(function_key_for_name(lower) is None);
    assert(lock_or_side_for_name(lower) is None);
    assert(digit_for_name(lower) is None);
    assert(letter_for_name(lower) == Some(Key::Z));
}

/// Every key name that the recorder writes is made of ASCII letters and digits, and
/// `parse_key_name` reads it back as the same key.
pub proof fn lemma_key_names_read_back(key: Key)
    ensures
        key_name_spec(key) matches Some(n) ==> plain_name(n) && key_for_name(lowercase(n)) == Some(
            key,
        ),
{
    lemma_key_names_read_back_lowered(key);
    if let Some(n) = key_name_spec(key) {
        lemma_plain_name(n);
    }
}

/// A key name reads back as a hotkey of that key alone: `parse_hotkey` of what
/// `key_to_name` gives is the key without a modifier.
pub proof fn lemma_key_names_parse_as_hotkeys(key: Key)
    ensures
        key_name_spec(key) matches Some(n) ==> hotkey_for_name(n) == Some(
            Hotkey { modifier: None, key },
        ),
{
    lemma_key_names_read_back(key);
    if let Some(n) = key_name_spec(key) {
        lemma_plain_name(n);
    }
}

proof fn lemma_key_names_read_back_lowered(key: Key)
    ensures
        key_name_spec(key) matches Some(n) ==> key_for_name(ascii_lower(n)) == Some(key) && plain_name(n),
{
    match key {
        Key::ScrollLock => lemma_name_of_scrolllock(),
        Key::Pause => lemma_name_of_pause(),
        Key::Insert => lemma_name_of_insert(),
        Key::Home => lemma_name_of_home(),
        Key::End => lemma_name_of_end(),
        Key::PageUp => lemma_name_of_pageup(),
        Key::PageDown => lemma_name_of_pagedown(),
        Key::Space => lemma_name_of_space(),
        Key::Esc => lemma_name_of_esc(),
        Key::Tab => lemma_name_of_tab(),
        Key::F1 => lemma_name_of_f1(),
        Key::F2 => lemma_name_of_f2(),
        Key::F3 => lemma_name_of_f3(),
        Key::F4 => lemma_name_of_f4(),
        Key::F5 => lemma_name_of_f5(),
        Key::F6 => lemma_name_of_f6(),
        Key::F7 => lemma_name_of_f7(),
        Key::F8 => lemma_name_of_f8(),
        Key::F9 => lemma_name_of_f9(),
        Key::F10 => lemma_name_of_f10(),
        Key::F11 => lemma_name_of_f11(),
        Key::F12 => lemma_name_of_f12(),
        Key::CapsLock => lemma_name_of_capslock(),
        Key::NumLock => lemma_name_of_numlock(),
        Key::Minus => lemma_name_of_minus(),
        Key::Semicolon => lemma_name_of_semicolon(),
        Key::Num0 => lemma_name_of_num0(),
        Key::Num1 => lemma_name_of_num1(),
        Key::Num2 => lemma_name_of_num2(),
        Key::Num3 => lemma_name_of_num3(),
        Key::Num4 => lemma_name_of_num4(),
        Key::Num5 => lemma_name_of_num5(),
        Key::Num6 => lemma_name_of_num6(),
        Key::Num7 => lemma_name_of_num7(),
        Key::Num8 => lemma_name_of_num8(),
        Key::Num9 => lemma_name_of_num9(),
        Key::A => lemma_name_of_a(),
        Key::B => lemma_name_of_b(),
        Key::C => lemma_name_of_c(),
        Key::D => lemma_name_of_d(),
        Key::E => lemma_name_of_e(),
        Key::F => lemma_name_of_f(),
        Key::G => lemma_name_of_g(),
        Key::H => lemma_name_of_h(),
        Key::I => lemma_name_of_i(),
        Key::J => lemma_name_of_j(),
        Key::K => lemma_name_of_k(),
        Key::L => lemma_name_of_l(),
        Key::M => lemma_name_of_m(),
        Key::N => lemma_name_of_n(),
        Key::O => lemma_name_of_o(),
        Key::P => lemma_name_of_p(),
        Key::Q => lemma_name_of_q(),
        Key::R => lemma_name_of_r(),
        Key::S => lemma_name_of_s(),
        Key::T => lemma_name_of_t(),
        Key::U => lemma_name_of_u(),
        Key::V => lemma_name_of_v(),
        Key::W => lemma_name_of_w(),
        Key::X => lemma_name_of_x(),
        Key::Y => lemma_name_of_y(),
        Key::Z => lemma_name_of_z(),
        _ => {},
    }
}


/// Every modifier family name that the recorder writes is made of ASCII letters, and
/// `parse_modifier` reads it back as a modifier of the same family.
pub proof fn lemma_modifier_names_read_back(key: Key)
    ensures
        modifier_name_spec(key) matches Some(n) ==> plain_name(n) && (modifier_for_name(
            lowercase(n),
        ) matches Some(m) && same_modifier(m, key)),
{
    reveal_strlit("Meta");
    reveal_strlit("Ctrl");
    reveal_strlit("Alt");
    reveal_strlit("Shift");
    reveal_strlit("meta");
    reveal_strlit("ctrl");
    reveal_strlit("alt");
    reveal_strlit("shift");
    reveal_strlit("super");
    reveal_strlit("win");
    reveal_strlit("control");
    match modifier_name_spec(key) {
        Some(n) => {
            let l = ascii_lower(n);
            if n == "Meta"@ {
                assert(l[0] == 'm' && l[1] == 'e' && l[2] == 't' && l[3] == 'a');
                assert(l =~= "meta"@);
            } else if n == "Ctrl"@ {
                assert(l[0] == 'c' && l[1] == 't' && l[2] == 'r' && l[3] == 'l');
                assert(l =~= "ctrl"@);
            } else if n == "Alt"@ {
                assert(l[0] == 'a' && l[1] == 'l' && l[2] == 't');
                assert(l =~= "alt"@);
            } else {
                assert(l[0] == 's' && l[1] == 'h' && l[2] == 'i' && l[3] == 'f' && l[4] == 't');
                assert(l =~= "shift"@);
            }
            assert(plain_name(n));
            lemma_plain_name(n);
        },
        None => {},
    }
}

proof fn lemma_ascii_case_forms(s: Seq<char>)
    requires
        is_ascii_chars(s),
    ensures
        is_ascii_chars(ascii_lower(s)),
        is_ascii_chars(ascii_upper(s)),
        ascii_lower(ascii_lower(s)) == ascii_lower(s),
        ascii_lower(ascii_upper(s)) == ascii_lower(s),
{
    let l = ascii_lower(s);
    let u = ascii_upper(s);
    assert forall|i: int| 0 <= i < s.len() implies (#[trigger] l[i]) <= '\u{7f}' && u[i]
        <= '\u{7f}' && ascii_lower(l)[i] == l[i] && ascii_lower(u)[i] == l[i] by {
        let c = s[i];
        assert(c <= '\u{7f}');
        if 'A' <= c && c <= 'Z' {
            assert('a' <= l[i] && l[i] <= 'z');
        }
        if 'a' <= c && c <= 'z' {
            assert('A' <= u[i] && u[i] <= 'Z');
            assert(((u[i] as u32) + 32) as char == c);
        }
    }
    assert(ascii_lower(l) =~= l);
    assert(ascii_lower(u) =~= l);
}

/// Key and modifier names are read whatever their case: an ASCII name, its ASCII
/// lowercase form and its ASCII uppercase form give the same key and the same
/// modifier (e.g. "ScrollLock", "scrolllock" and "SCROLLLOCK").
pub proof fn lemma_names_ignore_case(s: Seq<char>)
    requires
        is_ascii_chars(s),
    ensures
        key_for_name(lowercase(s)) == key_for_name(lowercase(ascii_lower(s))),
        key_for_name(lowercase(s)) == key_for_name(lowercase(ascii_upper(s))),
        modifier_for_name(lowercase(s)) == modifier_for_name(lowercase(ascii_lower(s))),
        modifier_for_name(lowercase(s)) == modifier_for_name(lowercase(ascii_upper(s))),
{
    lemma_ascii_case_forms(s);
}

/// The modifier families that a recorded combo names, in the order Meta, Ctrl, Alt,
/// Shift: the first of them held, if any.
pub open spec fn first_held_family(held: Seq<Key>) -> Option<Key> {
    if holds_modifier(held, Key::LeftMeta) {
        Some(Key::LeftMeta)
    } else if holds_modifier(held, Key::LeftCtrl) {
        Some(Key::LeftCtrl)
    } else if holds_modifier(held, Key::LeftAlt) {
        Some(Key::LeftAlt)
    } else if holds_modifier(held, Key::LeftShift) {
        Some(Key::LeftShift)
    } else {
        None
    }
}

/// A recorded combo reads back as what was typed: `parse_hotkey` of it gives the key,
/// with the first held modifier family (in the order Meta, Ctrl, Alt, Shift, as its
/// left-hand key) or none. Its last `+`-part is the key's name; it holds a `+`
/// exactly when a modifier was held, and then its first `+`-part names that family.
pub proof fn lemma_recorded_combo_reads_back(held: Seq<Key>, key: Key)
    requires
        key_name_spec(key) is Some,
    ensures
        ({
            let n = key_name_spec(key)->0;
            let c = combo_spec(held, n);
            &&& hotkey_for_name(c) == Some(Hotkey { modifier: first_held_family(held), key })
            &&& after_last(c, '+') == n
            &&& key_for_name(lowercase(after_last(c, '+'))) == Some(key)
            &&& c.contains('+') <==> first_held_family(held) is Some
            &&& first_held_family(held) matches Some(f) ==> modifier_for_name(
                lowercase(before_first(c, '+')),
            ) == Some(f)
        }),
{
    let n = key_name_spec(key)->0;
    lemma_key_names_read_back(key);
    reveal_strlit("Meta+");
    reveal_strlit("Ctrl+");
    reveal_strlit("Alt+");
    reveal_strlit("Shift+");
    reveal_strlit("Meta");
    reveal_strlit("Ctrl");
    reveal_strlit("Alt");
    reveal_strlit("Shift");
    let pm = if holds_modifier(held, Key::LeftMeta) { "Meta+"@ } else { Seq::<char>::empty() };
    let pc = if holds_modifier(held, Key::LeftCtrl) { "Ctrl+"@ } else { Seq::<char>::empty() };
    let pa = if holds_modifier(held, Key::LeftAlt) { "Alt+"@ } else { Seq::<char>::empty() };
    let ps = if holds_modifier(held, Key::LeftShift) { "Shift+"@ } else { Seq::<char>::empty() };
    let p = pm + pc + pa + ps;
    let c = combo_spec(held, n);
    assert(c == p + n);
    // The last part.
    assert forall|j: int| p.len() <= j < c.len() implies c[j] != '+' by {
        assert(c[j] == n[j - p.len()]);
        assert(n.contains(n[j - p.len()]));
    }
    if p.len() > 0 {
        assert(p.last() == '+');
        assert(c[p.len() - 1] == '+');
        assert(c.contains('+'));
    } else {
        assert(c =~= n);
    }
    lemma_after_last(c, '+', p.len() as int);
    assert(c.skip(p.len() as int) =~= n);
    // The first part.
    match first_held_family(held) {
        Some(f) => {
            let (name, k) = if f == Key::LeftMeta {
                ("Meta"@, 4int)
            } else if f == Key::LeftCtrl {
                ("Ctrl"@, 4int)
            } else if f == Key::LeftAlt {
                ("Alt"@, 3int)
            } else {
                ("Shift"@, 5int)
            };
            assert(c.take(k) =~= name);
            assert(c[k] == '+');
            assert forall|j: int| 0 <= j < k implies c[j] != '+' by {
                assert(c[j] == name[j]);
            }
            lemma_before_first(c, '+', k);
            lemma_modifier_names_read_back(f);
            lemma_plain_name(name);
            lemma_plain_name(n);
            assert(before_first(c, '+') == name);
            assert(modifier_for_name(lowercase(name)) == Some(f));
        },
        None => {
            assert(p.len() == 0);
            lemma_plain_name(n);
        },
    }
}

} // verus!
