use typingsucks::audio::{choose_microphone, frame_bounds, is_event_node};

fn strings(v: &[&str]) -> Vec<String> {
    v.iter().map(|s| s.to_string()).collect()
}

#[test]
fn prefers_a_microphone_and_skips_monitors() {
    let names = strings(&["Monitor of Built-in Audio", "HDA Intel PCH", "USB Headset Mic"]);
    assert_eq!(choose_microphone(&names), Some(2));
}

#[test]
fn falls_back_to_first_non_monitor() {
    let names = strings(&["Loopback PCM", "HDA Intel PCH", "Other"]);
    assert_eq!(choose_microphone(&names), Some(1));
    let names = strings(&["Monitor of Mic", "loopback"]);
    assert_eq!(choose_microphone(&names), None);
    assert_eq!(choose_microphone(&Vec::new()), None);
}

#[test]
fn event_nodes() {
    assert!(is_event_node("event3"));
    assert!(is_event_node("event"));
    assert!(!is_event_node("mouse0"));
    assert!(!is_event_node("even"));
}

#[test]
fn frames_tile_the_samples() {
    assert_eq!(frame_bounds(1000, 480), vec![(0, 480), (480, 960), (960, 1000)]);
    assert_eq!(frame_bounds(960, 480), vec![(0, 480), (480, 960)]);
    assert_eq!(frame_bounds(5, 480), vec![(0, 5)]);
    assert!(frame_bounds(0, 480).is_empty());
    let f = frame_bounds(4097, 1024);
    assert_eq!(f.len(), 5);
    assert_eq!(f[4], (4096, 4097));
}
