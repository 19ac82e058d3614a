use typingsucks::api_models::{
    classify_models_status, listed_ids, looks_like_audio_model, select_audio_models, shorten_body,
    sort_strings, ApiTestError, ModelsStatus,
};

fn strings(v: &[&str]) -> Vec<String> {
    v.iter().map(|s| s.to_string()).collect()
}

#[test]
fn keeps_only_speech_models_sorted() {
    let ids = strings(&["llama-3", "whisper-large-v3", "Distil-Whisper", "gpt-4o-transcribe", "tts-1"]);
    assert_eq!(
        select_audio_models(ids),
        strings(&["Distil-Whisper", "gpt-4o-transcribe", "whisper-large-v3"])
    );
}

#[test]
fn keeps_everything_when_nothing_looks_like_speech() {
    let ids = strings(&["b", "a", "c"]);
    assert_eq!(select_audio_models(ids), strings(&["a", "b", "c"]));
    assert!(select_audio_models(Vec::new()).is_empty());
}

#[test]
fn audio_model_names() {
    assert!(looks_like_audio_model("WHISPER-1"));
    assert!(looks_like_audio_model("speech-to-text"));
    assert!(looks_like_audio_model("gpt-4o-audio-preview"));
    assert!(!looks_like_audio_model("llama"));
}

#[test]
fn sorts_by_bytes() {
    let v = strings(&["b", "B", "a", "ab", "", "a", "\u{e9}", "z"]);
    assert_eq!(sort_strings(v), strings(&["", "B", "a", "a", "ab", "b", "z", "\u{e9}"]));
}

#[test]
fn status_classes() {
    assert_eq!(classify_models_status(200), ModelsStatus::Listed);
    assert_eq!(classify_models_status(401), ModelsStatus::Unauthorized);
    assert_eq!(classify_models_status(403), ModelsStatus::Unauthorized);
    assert_eq!(classify_models_status(404), ModelsStatus::NoListing);
    assert_eq!(classify_models_status(500), ModelsStatus::Failed);
    assert_eq!(classify_models_status(201), ModelsStatus::Failed);
}

#[test]
fn long_bodies_are_cut() {
    let long = "x".repeat(250);
    let cut = shorten_body(&long);
    assert_eq!(cut.len(), 203);
    assert!(cut.ends_with("..."));
    assert_eq!(shorten_body("short"), "short");
    assert_eq!(shorten_body(&"y".repeat(200)), "y".repeat(200));
}

#[test]
fn error_messages() {
    assert_eq!(ApiTestError::Unreachable.message(), "Cannot reach API \u{2014} check the URL");
    assert_eq!(
        ApiTestError::Unauthorized.message(),
        "Authentication failed \u{2014} check your API key"
    );
    assert_eq!(ApiTestError::RequestFailed("boom".into()).message(), "Request failed: boom");
    assert_eq!(ApiTestError::ParseFailed("eof".into()).message(), "Failed to parse response: eof");
    assert_eq!(ApiTestError::Http(502, "bad gateway".into()).message(), "HTTP 502: bad gateway");
    assert_eq!(ApiTestError::Http(0, String::new()).message(), "HTTP 0: ");
}

#[test]
fn listing_entries_without_ids_are_skipped() {
    let data = Some(vec![
        Some("whisper-large-v3".to_string()),
        None,
        Some("llama-3".to_string()),
    ]);
    assert_eq!(listed_ids(data), strings(&["whisper-large-v3", "llama-3"]));
    assert!(listed_ids(None).is_empty());
    assert!(listed_ids(Some(vec![None, None])).is_empty());
}
