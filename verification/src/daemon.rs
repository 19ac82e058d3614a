use vstd::prelude::*;
use crate::config::{is_runtime_dir, join_path, join_spec, runtime_dir, Config};
use crate::popup::{state_code, state_to_u8};
use crate::state::State;
use crate::text::{chars_of, str_eq, trim, trim_chars};

verus! {

/// Commands sent from the settings window to the daemon.
#[derive(Debug)]
pub enum DaemonCommand {
    Stop,
    Reload(Config),
}

/// `daemon.pid` in the runtime directory.
pub fn pid_file() -> (r: String)
    ensures
        exists|dir: Seq<char>| is_runtime_dir(dir) && r@ == join_spec(dir, "daemon.pid"@),
{
    let dir = runtime_dir();
    join_path(dir.as_str(), "daemon.pid")
}

/// Whether `c` is an ASCII decimal digit.
pub open spec fn is_digit(c: char) -> bool {
    '0' <= c <= '9'
}

/// Whether every character of `s` is an ASCII decimal digit.
pub open spec fn all_digits(s: Seq<char>) -> bool {
    forall|i: int| 0 <= i < s.len() ==> is_digit(#[trigger] s[i])
}

/// The number that the decimal digits `s` write (0 for none).
pub open spec fn decimal_value(s: Seq<char>) -> nat
    decreases s.len(),
{
    if s.len() == 0 {
        0
    } else {
        decimal_value(s.drop_last()) * 10 + ((s.last() as int) - ('0' as int)) as nat
    }
}

/// The `i32` that `s` writes, as `str::parse::<i32>` reads it: an optional `+` or
/// `-`, then one or more decimal digits, within the range of `i32`.
pub open spec fn parse_i32_spec(s: Seq<char>) -> Option<i32> {
    let neg = s.len() > 0 && s[0] == '-';
    let digits = if s.len() > 0 && (s[0] == '-' || s[0] == '+') {
        s.drop_first()
    } else {
        s
    };
    if digits.len() == 0 || !all_digits(digits) {
        None
    } else if neg {
        if decimal_value(digits) <= 2147483648 {
            Some((0 - decimal_value(digits)) as i32)
        } else {
            None
        }
    } else if decimal_value(digits) <= 2147483647 {
        Some(decimal_value(digits) as i32)
    } else {
        None
    }
}

/// The process id that a PID file holds: its text without surrounding white space,
/// read as an `i32`.
pub open spec fn pid_spec(content: Seq<char>) -> Option<i32> {
    parse_i32_spec(trim(content))
}

proof fn lemma_decimal_value_grows(s: Seq<char>, i: int, j: int)
    requires
        0 <= i <= j <= s.len(),
        all_digits(s),
    ensures
        decimal_value(s.take(i)) <= decimal_value(s.take(j)),
    decreases j - i,
{
    if i < j {
        lemma_decimal_value_grows(s, i, j - 1);
        assert(s.take(j).drop_last() =~= s.take(j - 1));
        assert(is_digit(s[j - 1]));
    }
}

/// The process id written in a PID file's content (see `pid_spec`).
pub fn parse_pid(content: &str) -> (r: Option<i32>)
    ensures
        r == pid_spec(content@),
{
    let t = trim_chars(&chars_of(content));
    let ghost s = t@;
    let neg = t.len() > 0 && t[0] == '-';
    let start: usize = if t.len() > 0 && (t[0] == '-' || t[0] == '+') {
        1
    } else {
        0
    };
    let ghost digits = s.skip(start as int);
    assert(digits =~= (if s.len() > 0 && (s[0] == '-' || s[0] == '+') {
        s.drop_first()
    } else {
        s
    }));
    if start >= t.len() {
        return None;
    }
    let mut i: usize = start;
    while i < t.len()
        invariant
            start <= i <= t.len(),
            s == t@,
            s == trim(content@),
            neg == (s.len() > 0 && s[0] == '-'),
            digits == s.skip(start as int),
            digits == (if s.len() > 0 && (s[0] == '-' || s[0] == '+') {
                s.drop_first()
            } else {
                s
            }),
            digits.len() > 0,
            forall|k: int| 0 <= k < i - start ==> is_digit(#[trigger] digits[k]),
        decreases t.len() - i,
    {
        if !('0' <= t[i] && t[i] <= '9') {
            proof {
                assert(digits[i - start] == t@[i as int]);
                assert(!is_digit(digits[i - start]));
                assert(!all_digits(digits));
            }
            return None;
        }
        i = i + 1;
    }
    assert(all_digits(digits));
    assert(digits.take(0) =~= Seq::<char>::empty());
    let mut acc: u64 = 0;
    let mut i: usize = start;
    while i < t.len()
        invariant
            start <= i <= t.len(),
            s == t@,
            s == trim(content@),
            neg == (s.len() > 0 && s[0] == '-'),
            digits == s.skip(start as int),
            digits == (if s.len() > 0 && (s[0] == '-' || s[0] == '+') {
                s.drop_first()
            } else {
                s
            }),
            digits.len() > 0,
            all_digits(digits),
            acc == decimal_value(digits.take(i - start)),
            acc <= 2147483648,
        decreases t.len() - i,
    {
        proof {
            assert(digits.take(i - start + 1).drop_last() =~= digits.take(i - start));
            assert(digits.take(i - start + 1).last() == t@[i as int]);
        }
        let d = (t[i] as u32 - '0' as u32) as u64;
        acc = acc * 10 + d;
        i = i + 1;
        if acc > 2147483648 {
            proof {
                lemma_decimal_value_grows(digits, i - start, digits.len() as int);
                assert(digits.take(digits.len() as int) =~= digits);
                assert(decimal_value(digits) > 2147483648);
            }
            return None;
        }
    }
    assert(digits.take(digits.len() as int) =~= digits);
    if neg {
        Some((0 - (acc as i64)) as i32)
    } else if acc <= 2147483647 {
        Some(acc as i32)
    } else {
        None
    }
}

/// What the daemon loop learns: a command, a hotkey event (or none within the wait,
/// or the hotkey channel closing), or the outcome of the work it asked for.
#[derive(Debug)]
pub enum DaemonEvent {
    /// A command from the settings window.
    Command(DaemonCommand),
    /// The hotkey went down.
    Pressed,
    /// The hotkey went up.
    Released,
    /// No hotkey event came within the wait.
    Timeout,
    /// The hotkey channel closed.
    Disconnected,
    /// Recording stopped with this many samples captured.
    Captured(usize),
    /// The audio is mono at 16 kHz and ready for transcription.
    AudioReady,
    /// The audio could not be brought to 16 kHz.
    AudioFailed,
    /// The transcriber gave this text.
    Transcribed(String),
    /// The transcriber failed.
    TranscriptionFailed,
    /// The text is on the clipboard.
    ClipboardSet,
    /// The clipboard could not be set.
    ClipboardFailed,
    /// The paste keystrokes were sent (or failed; either way the text is on the
    /// clipboard).
    PasteDone,
}

/// The work the daemon loop does next.
#[derive(Debug, PartialEq, Eq)]
pub enum DaemonAction {
    /// Nothing; wait for the next event.
    Wait,
    /// Clear the capture buffer and start recording.
    StartRecording,
    /// Stop recording and take the captured samples.
    StopRecording,
    /// Mix the samples to mono, denoise them and bring them to 16 kHz.
    PrepareAudio,
    /// Transcribe the prepared audio.
    Transcribe,
    /// Put this text on the clipboard.
    CopyToClipboard(String),
    /// Send the paste keystrokes.
    Paste,
    /// Leave the loop.
    Exit,
}

/// One step of the daemon loop: the next state, the work to do, and the popup code
/// to publish, if it changes.
#[derive(Debug)]
pub struct DaemonStep {
    pub state: State,
    pub action: DaemonAction,
    pub publish: Option<u8>,
}

/// Whether a transcription holds no speech: empty, or whisper's blank marker.
pub open spec fn is_no_speech(text: Seq<char>) -> bool {
    text.len() == 0 || text == "[BLANK_AUDIO]"@
}

/// A step into `state` that publishes its popup code.
pub open spec fn to_published(state: State, action: DaemonAction) -> DaemonStep {
    DaemonStep { state, action, publish: Some(state_code(state)) }
}

/// A step that stays in `state` and does nothing.
pub open spec fn stay(state: State) -> DaemonStep {
    DaemonStep { state, action: DaemonAction::Wait, publish: None }
}

/// The daemon's decision for an event in a state.
///
/// Any command, and the hotkey channel closing, end the loop. Pressing the hotkey
/// when idle starts a recording; releasing it while recording stops it and starts a
/// transcription. An empty capture, audio that cannot be prepared, a failed or
/// speechless transcription, and a clipboard failure all go back to idle. A
/// transcription with speech goes to the clipboard, then (with `auto_paste`) is
/// pasted, and the daemon goes back to idle. Every other event changes nothing.
pub open spec fn daemon_step_spec(state: State, auto_paste: bool, event: DaemonEvent) -> DaemonStep {
    match event {
        DaemonEvent::Command(_) | DaemonEvent::Disconnected => DaemonStep {
            state,
            action: DaemonAction::Exit,
            publish: None,
        },
        DaemonEvent::Pressed => if state == State::Idle {
            to_published(state.after_key_down(), DaemonAction::StartRecording)
        } else {
            stay(state)
        },
        DaemonEvent::Released => if state == State::Recording {
            to_published(state.after_key_up(), DaemonAction::StopRecording)
        } else {
            stay(state)
        },
        DaemonEvent::Timeout => stay(state),
        DaemonEvent::Captured(n) => if state == State::Transcribing {
            if n == 0 {
                to_published(State::Idle, DaemonAction::Wait)
            } else {
                DaemonStep { state, action: DaemonAction::PrepareAudio, publish: None }
            }
        } else {
            stay(state)
        },
        DaemonEvent::AudioReady => if state == State::Transcribing {
            DaemonStep { state, action: DaemonAction::Transcribe, publish: None }
        } else {
            stay(state)
        },
        DaemonEvent::AudioFailed | DaemonEvent::TranscriptionFailed => if state
            == State::Transcribing {
            to_published(State::Idle, DaemonAction::Wait)
        } else {
            stay(state)
        },
        DaemonEvent::Transcribed(text) => if state == State::Transcribing {
            if is_no_speech(text@) {
                to_published(State::Idle, DaemonAction::Wait)
            } else {
                DaemonStep {
                    state: state.after_transcription(),
                    action: DaemonAction::CopyToClipboard(text),
                    publish: None,
                }
            }
        } else {
            stay(state)
        },
        DaemonEvent::ClipboardSet => if state == State::Pasting {
            if auto_paste {
                DaemonStep { state, action: DaemonAction::Paste, publish: None }
            } else {
                to_published(state.after_paste(), DaemonAction::Wait)
            }
        } else {
            stay(state)
        },
        DaemonEvent::ClipboardFailed | DaemonEvent::PasteDone => if state == State::Pasting {
            to_published(state.after_paste(), DaemonAction::Wait)
        } else {
            stay(state)
        },
    }
}

fn published(state: State, action: DaemonAction) -> (r: DaemonStep)
    ensures
        r == to_published(state, action),
{
    DaemonStep { state, action, publish: Some(state_to_u8(state)) }
}

fn stay_in(state: State) -> (r: DaemonStep)
    ensures
        r == stay(state),
{
    DaemonStep { state, action: DaemonAction::Wait, publish: None }
}

/// The daemon's decision for an event in a state (see `daemon_step_spec`).
pub fn daemon_step(state: State, auto_paste: bool, event: DaemonEvent) -> (r: DaemonStep)
    ensures
        r == daemon_step_spec(state, auto_paste, event),
{
    match event {
        DaemonEvent::Command(_) | DaemonEvent::Disconnected => DaemonStep {
            state,
            action: DaemonAction::Exit,
            publish: None,
        },
        DaemonEvent::Pressed => if state == State::Idle {
            published(state.on_key_down(), DaemonAction::StartRecording)
        } else {
            stay_in(state)
        },
        DaemonEvent::Released => if state == State::Recording {
            published(state.on_key_up(), DaemonAction::StopRecording)
        } else {
            stay_in(state)
        },
        DaemonEvent::Timeout => stay_in(state),
        DaemonEvent::Captured(n) => if state == State::Transcribing {
            if n == 0 {
                published(State::Idle, DaemonAction::Wait)
            } else {
                DaemonStep { state, action: DaemonAction::PrepareAudio, publish: None }
            }
        } else {
            stay_in(state)
        },
        DaemonEvent::AudioReady => if state == State::Transcribing {
            DaemonStep { state, action: DaemonAction::Transcribe, publish: None }
        } else {
            stay_in(state)
        },
        DaemonEvent::AudioFailed | DaemonEvent::TranscriptionFailed => if state
            == State::Transcribing {
            published(State::Idle, DaemonAction::Wait)
        } else {
            stay_in(state)
        },
        DaemonEvent::Transcribed(text) => if state == State::Transcribing {
            if text.as_str().is_empty() || str_eq(text.as_str(), "[BLANK_AUDIO]") {
                published(State::Idle, DaemonAction::Wait)
            } else {
                DaemonStep {
                    state: state.on_transcription_done(),
                    action: DaemonAction::CopyToClipboard(text),
                    publish: None,
                }
            }
        } else {
            stay_in(state)
        },
        DaemonEvent::ClipboardSet => if state == State::Pasting {
            if auto_paste {
                DaemonStep { state, action: DaemonAction::Paste, publish: None }
            } else {
                published(state.on_paste_done(), DaemonAction::Wait)
            }
        } else {
            stay_in(state)
        },
        DaemonEvent::ClipboardFailed | DaemonEvent::PasteDone => if state == State::Pasting {
            published(state.on_paste_done(), DaemonAction::Wait)
        } else {
            stay_in(state)
        },
    }
}


/// Whenever a step publishes a popup code, it is the code of the state it leads to.
pub proof fn lemma_published_code_matches_state(state: State, auto_paste: bool, event: DaemonEvent)
    ensures
        daemon_step_spec(state, auto_paste, event).publish matches Some(c) ==> c == state_code(
            daemon_step_spec(state, auto_paste, event).state,
        ),
{
}

/// A recording starts only from idle, and only on a press: pressing the hotkey while
/// the daemon records, transcribes or pastes changes nothing (no work, nothing
/// published); from idle it starts a recording and publishes the recording code.
/// Likewise a recording stops only on a release while recording.
pub proof fn lemma_recording_starts_only_from_idle(state: State, auto_paste: bool, event: DaemonEvent)
    ensures
        daemon_step_spec(state, auto_paste, event).action == DaemonAction::StartRecording ==> state
            == State::Idle && event is Pressed,
        daemon_step_spec(state, auto_paste, event).action == DaemonAction::StopRecording ==> state
            == State::Recording && event is Released,
        state != State::Idle ==> daemon_step_spec(state, auto_paste, DaemonEvent::Pressed)
            == (DaemonStep { state, action: DaemonAction::Wait, publish: None }),
        daemon_step_spec(State::Idle, auto_paste, DaemonEvent::Pressed) == (DaemonStep {
            state: State::Recording,
            action: DaemonAction::StartRecording,
            publish: Some(1u8),
        }),
{
}

/// A command from the settings window (stop or reload) and a closed hotkey channel
/// end the loop, in any state; no other event does.
pub proof fn lemma_exit_only_on_command_or_disconnect(state: State, auto_paste: bool, event: DaemonEvent)
    ensures
        (daemon_step_spec(state, auto_paste, event).action == DaemonAction::Exit) <==> (
        event is Command || event is Disconnected),
{
}

/// A transcription without speech (empty, or whisper's blank marker) never reaches
/// the clipboard: the daemon goes back to idle instead.
pub proof fn lemma_no_speech_not_copied(auto_paste: bool, text: String)
    requires
        is_no_speech(text@),
    ensures
        daemon_step_spec(State::Transcribing, auto_paste, DaemonEvent::Transcribed(text)).state
            == State::Idle,
        !(daemon_step_spec(
            State::Transcribing,
            auto_paste,
            DaemonEvent::Transcribed(text),
        ).action is CopyToClipboard),
{
}

/// Every failure along the way (nothing captured, audio not prepared, transcription
/// failed, clipboard failed) takes the daemon back to idle and publishes that.
pub proof fn lemma_failures_return_to_idle(auto_paste: bool)
    ensures
        daemon_step_spec(State::Transcribing, auto_paste, DaemonEvent::Captured(0)) == to_published(
            State::Idle,
            DaemonAction::Wait,
        ),
        daemon_step_spec(State::Transcribing, auto_paste, DaemonEvent::AudioFailed) == to_published(
            State::Idle,
            DaemonAction::Wait,
        ),
        daemon_step_spec(State::Transcribing, auto_paste, DaemonEvent::TranscriptionFailed)
            == to_published(State::Idle, DaemonAction::Wait),
        daemon_step_spec(State::Pasting, auto_paste, DaemonEvent::ClipboardFailed) == to_published(
            State::Idle,
            DaemonAction::Wait,
        ),
{
}

/// Holding the hotkey, speaking and letting go takes an idle daemon through one whole
/// cycle: it records, stops, prepares and transcribes the audio, puts exactly the
/// transcribed text on the clipboard, pastes it when `auto_paste` is on, and is idle
/// again at the end.
pub proof fn lemma_full_cycle(auto_paste: bool, samples: usize, text: String)
    requires
        samples > 0,
        !is_no_speech(text@),
    ensures
        ({
            let s1 = daemon_step_spec(State::Idle, auto_paste, DaemonEvent::Pressed);
            let s2 = daemon_step_spec(s1.state, auto_paste, DaemonEvent::Released);
            let s3 = daemon_step_spec(s2.state, auto_paste, DaemonEvent::Captured(samples));
            let s4 = daemon_step_spec(s3.state, auto_paste, DaemonEvent::AudioReady);
            let s5 = daemon_step_spec(s4.state, auto_paste, DaemonEvent::Transcribed(text));
            let s6 = daemon_step_spec(s5.state, auto_paste, DaemonEvent::ClipboardSet);
            let s7 = daemon_step_spec(s6.state, auto_paste, DaemonEvent::PasteDone);
            &&& s1.state == State::Recording && s1.action == DaemonAction::StartRecording
            &&& s2.state == State::Transcribing && s2.action == DaemonAction::StopRecording
            &&& s3.action == DaemonAction::PrepareAudio
            &&& s4.action == DaemonAction::Transcribe
            &&& s5.state == State::Pasting && s5.action == DaemonAction::CopyToClipboard(text)
            &&& auto_paste ==> s6.action == DaemonAction::Paste && s7.state == State::Idle
            &&& !auto_paste ==> s6.action == DaemonAction::Wait && s6.state == State::Idle
        }),
{
}

} // verus!
