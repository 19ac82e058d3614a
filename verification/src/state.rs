use vstd::prelude::*;

verus! {

/// Where the hold-to-talk cycle stands.
#[derive(Debug, Clone, Copy, PartialEq, Eq, Structural)]
pub enum State {
    Idle,
    Recording,
    Transcribing,
    Pasting,
}

impl State {
    /// The state after the hotkey goes down: only an idle daemon starts recording.
    pub open spec fn after_key_down(self) -> State {
        match self {
            State::Idle => State::Recording,
            other => other,
        }
    }

    /// The state after the hotkey goes up: only a recording daemon starts transcribing.
    pub open spec fn after_key_up(self) -> State {
        match self {
            State::Recording => State::Transcribing,
            other => other,
        }
    }

    /// The state once a transcription is in hand.
    pub open spec fn after_transcription(self) -> State {
        match self {
            State::Transcribing => State::Pasting,
            other => other,
        }
    }

    /// The state once the text has been handed out.
    pub open spec fn after_paste(self) -> State {
        match self {
            State::Pasting => State::Idle,
            other => other,
        }
    }

    /// The text shown for a state.
    pub open spec fn label_spec(self) -> Seq<char> {
        match self {
            State::Idle => "Idle"@,
            State::Recording => "Listening..."@,
            State::Transcribing => "Transcribing..."@,
            State::Pasting => "Pasting"@,
        }
    }

    pub fn on_key_down(self) -> (r: Self)
        ensures
            r == self.after_key_down(),
    {
        match self {
            State::Idle => State::Recording,
            other => other,
        }
    }

    pub fn on_key_up(self) -> (r: Self)
        ensures
            r == self.after_key_up(),
    {
        match self {
            State::Recording => State::Transcribing,
            other => other,
        }
    }

    pub fn on_transcription_done(self) -> (r: Self)
        ensures
            r == self.after_transcription(),
    {
        match self {
            State::Transcribing => State::Pasting,
            other => other,
        }
    }

    pub fn on_paste_done(self) -> (r: Self)
        ensures
            r == self.after_paste(),
    {
        match self {
            State::Pasting => State::Idle,
            other => other,
        }
    }

    /// The text shown for this state ("Idle", "Listening...", "Transcribing...", "Pasting").
    pub fn label(&self) -> (r: &'static str)
        ensures
            r@ == self.label_spec(),
    {
        match self {
            State::Idle => "Idle",
            State::Recording => "Listening...",
            State::Transcribing => "Transcribing...",
            State::Pasting => "Pasting",
        }
    }

    /// The label as an owned string, in place of a `Display` impl.
    pub fn to_string(&self) -> (r: String)
        ensures
            r@ == self.label_spec(),
    {
        let s = self.label();
        s.to_owned()
    }
}

/// Going through the four events in order brings an idle daemon back to idle,
/// through recording, transcribing and pasting.
pub proof fn lemma_full_cycle()
    ensures
        State::Idle.after_key_down() == State::Recording,
        State::Recording.after_key_up() == State::Transcribing,
        State::Transcribing.after_transcription() == State::Pasting,
        State::Pasting.after_paste() == State::Idle,
        State::Idle.after_key_down().after_key_up().after_transcription().after_paste()
            == State::Idle,
{
}

/// An event that arrives twice in a row (a key repeat, say) has no effect the second
/// time: every transition is idempotent.
pub proof fn lemma_transitions_idempotent(s: State)
    ensures
        s.after_key_down().after_key_down() == s.after_key_down(),
        s.after_key_up().after_key_up() == s.after_key_up(),
        s.after_transcription().after_transcription() == s.after_transcription(),
        s.after_paste().after_paste() == s.after_paste(),
{
}

/// Each transition moves only out of its own source state and leaves every other
/// state where it is.
pub proof fn lemma_transitions_guarded(s: State)
    ensures
        s != State::Idle ==> s.after_key_down() == s,
        s != State::Recording ==> s.after_key_up() == s,
        s != State::Transcribing ==> s.after_transcription() == s,
        s != State::Pasting ==> s.after_paste() == s,
{
}

} // verus!
