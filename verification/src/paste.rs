use vstd::prelude::*;
use crate::text::{chars_of, contains_chars, contains_seq, lowercase, lowercase_chars, string_of, trim, trim_chars};

verus! {

/// Window classes of terminal emulators, which paste with Ctrl+Shift+V.
pub open spec fn terminal_names() -> Seq<Seq<char>> {
    seq![
        "konsole"@, "alacritty"@, "kitty"@, "foot"@, "wezterm"@, "gnome-terminal"@,
        "xfce4-terminal"@, "terminator"@, "tilix"@, "urxvt"@, "xterm"@, "st-256color"@,
        "sakura"@, "terminology"@, "yakuake"@, "guake"@, "cool-retro-term"@, "blackbox"@,
        "contour"@, "rio"@, "ghostty"@,
    ]
}

fn terminal_name_list() -> (r: Vec<&'static str>)
    ensures
        r@.map_values(|s: &'static str| s@) == terminal_names(),
{
    let r = vec![
        "konsole", "alacritty", "kitty", "foot", "wezterm", "gnome-terminal",
        "xfce4-terminal", "terminator", "tilix", "urxvt", "xterm", "st-256color",
        "sakura", "terminology", "yakuake", "guake", "cool-retro-term", "blackbox",
        "contour", "rio", "ghostty",
    ];
    assert(r@.map_values(|s: &'static str| s@) =~= terminal_names());
    r
}

/// Whether a window class names a terminal emulator: its lowercase form contains one
/// of the terminal names.
pub open spec fn is_terminal_class_spec(class: Seq<char>) -> bool {
    exists|i: int| 0 <= i < terminal_names().len() && contains_seq(lowercase(class), #[trigger] terminal_names()[i])
}

/// Whether the focused window's class names a terminal emulator.
pub fn is_terminal_class(class: &str) -> (r: bool)
    ensures
        r == is_terminal_class_spec(class@),
{
    let lower = lowercase_chars(class);
    let names = terminal_name_list();
    let mut i: usize = 0;
    while i < names.len()
        invariant
            i <= names.len(),
            lower@ == lowercase(class@),
            names@.map_values(|s: &'static str| s@) == terminal_names(),
            forall|j: int| 0 <= j < i ==> !contains_seq(lower@, #[trigger] terminal_names()[j]),
        decreases names.len() - i,
    {
        assert(names@.map_values(|s: &'static str| s@)[i as int] == names@[i as int]@);
        if contains_chars(&lower, &chars_of(names[i])) {
            return true;
        }
        i = i + 1;
    }
    false
}

/// The window class that a window tool printed: its output without surrounding white
/// space, or `None` where that leaves nothing.
pub fn window_class_from(output: &str) -> (r: Option<String>)
    ensures
        match r {
            Some(c) => c@ == trim(output@) && c@.len() > 0,
            None => trim(output@).len() == 0,
        },
{
    let t = trim_chars(&chars_of(output));
    if t.len() == 0 {
        None
    } else {
        Some(string_of(t.as_slice()))
    }
}

/// Whether the focused window, whose class the window tools reported (if any), is a
/// terminal emulator.
pub fn is_terminal_focused(class: Option<String>) -> (r: bool)
    ensures
        r == (match class {
            Some(c) => is_terminal_class_spec(c@),
            None => false,
        }),
{
    match class {
        Some(c) => is_terminal_class(c.as_str()),
        None => false,
    }
}

/// A key that the paste shortcut uses.
#[derive(Debug, Clone, Copy, PartialEq, Eq, Structural)]
pub enum PasteKey {
    Control,
    Shift,
    V,
}

/// One keystroke of the paste shortcut.
#[derive(Debug, Clone, Copy, PartialEq, Eq, Structural)]
pub enum Keystroke {
    Press(PasteKey),
    Click(PasteKey),
    Release(PasteKey),
}

/// The keystrokes that paste: Ctrl+Shift+V in a terminal, Ctrl+V elsewhere, each
/// modifier released in the reverse order of pressing.
pub open spec fn paste_keystrokes_spec(terminal: bool) -> Seq<Keystroke> {
    if terminal {
        seq![
            Keystroke::Press(PasteKey::Control),
            Keystroke::Press(PasteKey::Shift),
            Keystroke::Click(PasteKey::V),
            Keystroke::Release(PasteKey::Shift),
            Keystroke::Release(PasteKey::Control),
        ]
    } else {
        seq![
            Keystroke::Press(PasteKey::Control),
            Keystroke::Click(PasteKey::V),
            Keystroke::Release(PasteKey::Control),
        ]
    }
}

/// The keystrokes that paste into a terminal (`terminal`) or any other window.
pub fn paste_keystrokes(terminal: bool) -> (r: Vec<Keystroke>)
    ensures
        r@ == paste_keystrokes_spec(terminal),
{
    let r = if terminal {
        vec![
            Keystroke::Press(PasteKey::Control),
            Keystroke::Press(PasteKey::Shift),
            Keystroke::Click(PasteKey::V),
            Keystroke::Release(PasteKey::Shift),
            Keystroke::Release(PasteKey::Control),
        ]
    } else {
        vec![
            Keystroke::Press(PasteKey::Control),
            Keystroke::Click(PasteKey::V),
            Keystroke::Release(PasteKey::Control),
        ]
    };
    assert(r@ =~= paste_keystrokes_spec(terminal));
    r
}

/// The keys held after `ks`, most recent last, or `None` where a keystroke releases
/// a key other than the last one still held.
pub open spec fn held_after(ks: Seq<Keystroke>) -> Option<Seq<PasteKey>>
    decreases ks.len(),
{
    if ks.len() == 0 {
        Some(Seq::empty())
    } else {
        match held_after(ks.drop_last()) {
            None => None,
            Some(held) => match ks.last() {
                Keystroke::Press(k) => Some(held.push(k)),
                Keystroke::Click(_) => Some(held),
                Keystroke::Release(k) => if held.len() > 0 && held.last() == k {
                    Some(held.drop_last())
                } else {
                    None
                },
            },
        }
    }
}

/// The paste shortcut leaves no key held: each key it presses is released, the last
/// pressed first; and `V` is clicked while Control (and, in a terminal, Shift) is
/// held.
pub proof fn lemma_paste_releases_what_it_presses(terminal: bool)
    ensures
        held_after(paste_keystrokes_spec(terminal)) == Some(Seq::<PasteKey>::empty()),
        ({
            let ks = paste_keystrokes_spec(terminal);
            let v = if terminal { 2int } else { 1int };
            &&& ks[v] == Keystroke::Click(PasteKey::V)
            &&& held_after(ks.take(v)) == Some(if terminal {
                seq![PasteKey::Control, PasteKey::Shift]
            } else {
                seq![PasteKey::Control]
            })
        }),
{
    let ks = paste_keystrokes_spec(terminal);
    let n = ks.len() as int;
    let c = seq![PasteKey::Control];
    let cs = seq![PasteKey::Control, PasteKey::Shift];
    assert(Seq::<PasteKey>::empty().push(PasteKey::Control) =~= c);
    assert(c.push(PasteKey::Shift) =~= cs);
    assert(cs.drop_last() =~= c);
    assert(c.drop_last() =~= Seq::<PasteKey>::empty());
    assert(ks.take(0) =~= Seq::<Keystroke>::empty());
    assert(held_after(ks.take(0)) == Some(Seq::<PasteKey>::empty()));
    assert(ks.take(1).drop_last() =~= ks.take(0));
    assert(ks.take(1).last() == ks[0]);
    assert(held_after(ks.take(1)) == Some(c));
    assert(ks.take(2).drop_last() =~= ks.take(1));
    assert(ks.take(2).last() == ks[1]);
    assert(ks.take(3).drop_last() =~= ks.take(2));
    assert(ks.take(3).last() == ks[2]);
    if terminal {
        assert(held_after(ks.take(2)) == Some(cs));
        assert(held_after(ks.take(3)) == Some(cs));
        assert(ks.take(4).drop_last() =~= ks.take(3));
        assert(ks.take(4).last() == ks[3]);
        assert(held_after(ks.take(4)) == Some(c));
        assert(ks.take(5).drop_last() =~= ks.take(4));
        assert(ks.take(5).last() == ks[4]);
        assert(held_after(ks.take(5)) == Some(Seq::<PasteKey>::empty()));
    } else {
        assert(held_after(ks.take(2)) == Some(c));
        assert(held_after(ks.take(3)) == Some(Seq::<PasteKey>::empty()));
    }
    assert(ks.take(n) =~= ks);
}

} // verus!
