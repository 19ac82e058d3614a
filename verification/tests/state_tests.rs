use typingsucks::popup::{popup_text, state_to_u8, STATE_IDLE, STATE_RECORDING, STATE_TRANSCRIBING};
use typingsucks::state::State;

#[test]
fn full_cycle_returns_to_idle() {
    let s = State::Idle.on_key_down();
    assert_eq!(s, State::Recording);
    let s = s.on_key_up();
    assert_eq!(s, State::Transcribing);
    let s = s.on_transcription_done();
    assert_eq!(s, State::Pasting);
    let s = s.on_paste_done();
    assert_eq!(s, State::Idle);
}

#[test]
fn events_out_of_turn_change_nothing() {
    assert_eq!(State::Recording.on_key_down(), State::Recording);
    assert_eq!(State::Transcribing.on_key_down(), State::Transcribing);
    assert_eq!(State::Idle.on_key_up(), State::Idle);
    assert_eq!(State::Pasting.on_key_up(), State::Pasting);
    assert_eq!(State::Idle.on_transcription_done(), State::Idle);
    assert_eq!(State::Recording.on_paste_done(), State::Recording);
}

#[test]
fn repeated_key_down_is_harmless() {
    let s = State::Idle.on_key_down().on_key_down();
    assert_eq!(s, State::Recording);
}

#[test]
fn state_labels() {
    assert_eq!(State::Idle.label(), "Idle");
    assert_eq!(State::Recording.label(), "Listening...");
    assert_eq!(State::Transcribing.label(), "Transcribing...");
    assert_eq!(State::Pasting.to_string(), "Pasting");
}

#[test]
fn popup_codes() {
    assert_eq!(state_to_u8(State::Idle), STATE_IDLE);
    assert_eq!(state_to_u8(State::Pasting), 0);
    assert_eq!(state_to_u8(State::Recording), STATE_RECORDING);
    assert_eq!(state_to_u8(State::Transcribing), STATE_TRANSCRIBING);
    assert_eq!(STATE_TRANSCRIBING, 2);
}

#[test]
fn popup_shows_only_while_busy() {
    assert_eq!(popup_text(state_to_u8(State::Idle)), None);
    assert_eq!(popup_text(state_to_u8(State::Pasting)), None);
    assert_eq!(popup_text(1), Some("\u{1f3a4} Listening..."));
    assert_eq!(popup_text(2), Some("\u{23f3} Transcribing..."));
    assert_eq!(popup_text(7), Some(""));
}
