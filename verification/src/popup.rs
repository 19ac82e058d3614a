use vstd::prelude::*;
use crate::state::State;

verus! {

/// The popup code of an idle daemon (also used while pasting).
pub const STATE_IDLE: u8 = 0;

/// The popup code of a recording daemon.
pub const STATE_RECORDING: u8 = 1;

/// The popup code of a transcribing daemon.
pub const STATE_TRANSCRIBING: u8 = 2;

/// The code that the daemon publishes for the popup in a given state.
pub open spec fn state_code(state: State) -> u8 {
    match state {
        State::Idle | State::Pasting => STATE_IDLE,
        State::Recording => STATE_RECORDING,
        State::Transcribing => STATE_TRANSCRIBING,
    }
}

pub fn state_to_u8(state: State) -> (r: u8)
    ensures
        r == state_code(state),
{
    match state {
        State::Idle | State::Pasting => STATE_IDLE,
        State::Recording => STATE_RECORDING,
        State::Transcribing => STATE_TRANSCRIBING,
    }
}

/// What the popup shows for a published code: nothing when idle, a red
/// "Listening..." banner while recording, a blue "Transcribing..." banner while
/// transcribing, and an empty banner for any other code.
pub open spec fn popup_text_spec(code: u8) -> Option<Seq<char>> {
    if code == STATE_IDLE {
        None
    } else if code == STATE_RECORDING {
        Some("\u{1f3a4} Listening..."@)
    } else if code == STATE_TRANSCRIBING {
        Some("\u{23f3} Transcribing..."@)
    } else {
        Some(""@)
    }
}

/// The popup's banner for a published code; `None` hides the popup.
pub fn popup_text(code: u8) -> (r: Option<&'static str>)
    ensures
        r matches Some(t) ==> popup_text_spec(code) == Some(t@),
        r is None <==> popup_text_spec(code) is None,
{
    if code == STATE_IDLE {
        None
    } else if code == STATE_RECORDING {
        Some("\u{1f3a4} Listening...")
    } else if code == STATE_TRANSCRIBING {
        Some("\u{23f3} Transcribing...")
    } else {
        Some("")
    }
}

/// The popup is visible exactly while the daemon records or transcribes.
pub proof fn lemma_popup_visible_while_busy(s: State)
    ensures
        popup_text_spec(state_code(s)) is Some <==> (s == State::Recording || s
            == State::Transcribing),
{
}

} // verus!
