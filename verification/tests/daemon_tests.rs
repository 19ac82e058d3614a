use typingsucks::config::Config;
use typingsucks::daemon::{daemon_step, parse_pid, DaemonAction, DaemonCommand, DaemonEvent};
use typingsucks::state::State;

fn run(auto_paste: bool, events: Vec<DaemonEvent>) -> (State, Vec<DaemonAction>, Vec<u8>) {
    let mut state = State::Idle;
    let mut actions = Vec::new();
    let mut published = Vec::new();
    for e in events {
        let step = daemon_step(state, auto_paste, e);
        state = step.state;
        if let Some(c) = step.publish {
            published.push(c);
        }
        actions.push(step.action);
    }
    (state, actions, published)
}

#[test]
fn whole_cycle_with_auto_paste() {
    let (state, actions, published) = run(true, vec![
        DaemonEvent::Pressed,
        DaemonEvent::Released,
        DaemonEvent::Captured(48000),
        DaemonEvent::AudioReady,
        DaemonEvent::Transcribed("hello world".to_string()),
        DaemonEvent::ClipboardSet,
        DaemonEvent::PasteDone,
    ]);
    assert_eq!(state, State::Idle);
    assert_eq!(actions, vec![
        DaemonAction::StartRecording,
        DaemonAction::StopRecording,
        DaemonAction::PrepareAudio,
        DaemonAction::Transcribe,
        DaemonAction::CopyToClipboard("hello world".to_string()),
        DaemonAction::Paste,
        DaemonAction::Wait,
    ]);
    assert_eq!(published, vec![1, 2, 0]);
}

#[test]
fn whole_cycle_without_auto_paste() {
    let (state, actions, _) = run(false, vec![
        DaemonEvent::Pressed,
        DaemonEvent::Released,
        DaemonEvent::Captured(10),
        DaemonEvent::AudioReady,
        DaemonEvent::Transcribed("hi".to_string()),
        DaemonEvent::ClipboardSet,
    ]);
    assert_eq!(state, State::Idle);
    assert_eq!(actions[5], DaemonAction::Wait);
}

#[test]
fn blank_transcriptions_are_dropped() {
    for text in ["", "[BLANK_AUDIO]"] {
        let (state, actions, published) = run(true, vec![
            DaemonEvent::Pressed,
            DaemonEvent::Released,
            DaemonEvent::Captured(10),
            DaemonEvent::AudioReady,
            DaemonEvent::Transcribed(text.to_string()),
        ]);
        assert_eq!(state, State::Idle);
        assert_eq!(actions[4], DaemonAction::Wait);
        assert_eq!(published, vec![1, 2, 0]);
    }
}

#[test]
fn empty_capture_and_failures_go_idle() {
    let (state, _, published) = run(true, vec![
        DaemonEvent::Pressed,
        DaemonEvent::Released,
        DaemonEvent::Captured(0),
    ]);
    assert_eq!(state, State::Idle);
    assert_eq!(published, vec![1, 2, 0]);
    let (state, _, _) = run(true, vec![
        DaemonEvent::Pressed,
        DaemonEvent::Released,
        DaemonEvent::Captured(5),
        DaemonEvent::AudioFailed,
    ]);
    assert_eq!(state, State::Idle);
    let (state, _, _) = run(true, vec![
        DaemonEvent::Pressed,
        DaemonEvent::Released,
        DaemonEvent::Captured(5),
        DaemonEvent::AudioReady,
        DaemonEvent::TranscriptionFailed,
    ]);
    assert_eq!(state, State::Idle);
    let (state, _, _) = run(true, vec![
        DaemonEvent::Pressed,
        DaemonEvent::Released,
        DaemonEvent::Captured(5),
        DaemonEvent::AudioReady,
        DaemonEvent::Transcribed("x".to_string()),
        DaemonEvent::ClipboardFailed,
    ]);
    assert_eq!(state, State::Idle);
}

#[test]
fn release_without_press_and_double_press() {
    let (state, actions, published) = run(true, vec![
        DaemonEvent::Released,
        DaemonEvent::Pressed,
        DaemonEvent::Pressed,
        DaemonEvent::Timeout,
    ]);
    assert_eq!(state, State::Recording);
    assert_eq!(actions, vec![
        DaemonAction::Wait,
        DaemonAction::StartRecording,
        DaemonAction::Wait,
        DaemonAction::Wait,
    ]);
    assert_eq!(published, vec![1]);
}

#[test]
fn commands_and_disconnects_end_the_loop() {
    let step = daemon_step(State::Recording, true, DaemonEvent::Command(DaemonCommand::Stop));
    assert_eq!(step.action, DaemonAction::Exit);
    let step = daemon_step(State::Idle, true, DaemonEvent::Command(DaemonCommand::Reload(Config::default())));
    assert_eq!(step.action, DaemonAction::Exit);
    let step = daemon_step(State::Idle, true, DaemonEvent::Disconnected);
    assert_eq!(step.action, DaemonAction::Exit);
}

#[test]
fn pid_file_lives_in_runtime_dir() {
    assert!(typingsucks::daemon::pid_file().ends_with("/typingsucks/daemon.pid"));
}

#[test]
fn pid_files_are_read_like_str_parse() {
    assert_eq!(parse_pid("1234\n"), Some(1234));
    assert_eq!(parse_pid("  -5\t"), Some(-5));
    assert_eq!(parse_pid("+7"), Some(7));
    assert_eq!(parse_pid("0042"), Some(42));
    assert_eq!(parse_pid("2147483647"), Some(i32::MAX));
    assert_eq!(parse_pid("-2147483648"), Some(i32::MIN));
    assert_eq!(parse_pid("2147483648"), None);
    assert_eq!(parse_pid("-2147483649"), None);
    assert_eq!(parse_pid("99999999999999999999999"), None);
    assert_eq!(parse_pid(""), None);
    assert_eq!(parse_pid("   "), None);
    assert_eq!(parse_pid("-"), None);
    assert_eq!(parse_pid("+"), None);
    assert_eq!(parse_pid("12a"), None);
    assert_eq!(parse_pid("1 2"), None);
    for s in ["1234", " -5 ", "+7", "x", "", "2147483648", "-0"] {
        assert_eq!(parse_pid(s), s.trim().parse::<i32>().ok());
    }
}
