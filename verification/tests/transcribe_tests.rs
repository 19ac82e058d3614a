use typingsucks::config::{Config, TranscriptionMode};
use typingsucks::transcribe::{
    api_language, api_reply_text, build_transcriber_plan, encode_wav, join_segments, local_plan,
    normalize_api_url, whisper_language, PlanError, TranscriberPlan,
};
use typingsucks::model::ModelPathError;

#[test]
fn completes_the_transcription_endpoint() {
    assert_eq!(
        normalize_api_url("https://api.groq.com/openai"),
        "https://api.groq.com/openai/v1/audio/transcriptions"
    );
    assert_eq!(normalize_api_url("http://host/v1/"), "http://host/v1/audio/transcriptions");
    assert_eq!(
        normalize_api_url("http://host/v1/audio/transcriptions//"),
        "http://host/v1/audio/transcriptions"
    );
    assert_eq!(normalize_api_url(""), "/v1/audio/transcriptions");
}

#[test]
fn normalizing_twice_changes_nothing() {
    for u in ["https://a.b/openai/", "http://h/v1", "x"] {
        let once = normalize_api_url(u);
        assert_eq!(normalize_api_url(&once), once);
    }
}

#[test]
fn languages() {
    assert_eq!(whisper_language("auto"), None);
    assert_eq!(whisper_language("de"), Some("de".to_string()));
    assert_eq!(api_language("auto"), None);
    assert_eq!(api_language(""), None);
    assert_eq!(api_language("ja"), Some("ja".to_string()));
}

#[test]
fn api_replies() {
    assert_eq!(api_reply_text(true, "  Hello there.\n"), Some("Hello there.".to_string()));
    assert_eq!(api_reply_text(false, "bad request"), None);
}

#[test]
fn wav_header_and_samples() {
    let wav = encode_wav(&[0, 1, -1, 32767, -32768], 16000);
    assert_eq!(wav.len(), 44 + 10);
    assert_eq!(&wav[0..4], b"RIFF");
    assert_eq!(&wav[4..8], &(36u32 + 10).to_le_bytes());
    assert_eq!(&wav[8..16], b"WAVEfmt ");
    assert_eq!(&wav[16..20], &16u32.to_le_bytes());
    assert_eq!(&wav[20..24], &[1, 0, 1, 0]);
    assert_eq!(&wav[24..28], &16000u32.to_le_bytes());
    assert_eq!(&wav[28..32], &32000u32.to_le_bytes());
    assert_eq!(&wav[32..36], &[2, 0, 16, 0]);
    assert_eq!(&wav[36..40], b"data");
    assert_eq!(&wav[40..44], &10u32.to_le_bytes());
    assert_eq!(&wav[44..], &[0, 0, 1, 0, 0xff, 0xff, 0xff, 0x7f, 0x00, 0x80]);
}

#[test]
fn empty_wav_is_just_a_header() {
    let wav = encode_wav(&[], 8000);
    assert_eq!(wav.len(), 44);
    assert_eq!(&wav[4..8], &36u32.to_le_bytes());
    assert_eq!(&wav[28..32], &16000u32.to_le_bytes());
}

#[test]
fn joins_whisper_segments() {
    let segs = vec![Some(" Hello".to_string()), Some("world. ".to_string())];
    assert_eq!(join_segments(&segs), "Hello world.");
    let segs = vec![Some("a".to_string()), None, Some(" b ".to_string())];
    assert_eq!(join_segments(&segs), "a b");
    let segs = vec![Some("a".to_string()), None];
    assert_eq!(join_segments(&segs), "a");
    assert_eq!(join_segments(&vec![]), "");
}

#[test]
fn api_mode_plan() {
    let mut cfg = Config::default();
    cfg.transcription.mode = TranscriptionMode::Api;
    cfg.transcription.api_url = "https://api.groq.com/openai/".to_string();
    cfg.transcription.api_key = "k".to_string();
    cfg.transcription.api_model = "whisper-large-v3".to_string();
    match build_transcriber_plan(&cfg) {
        Ok(TranscriberPlan::Api { url, api_key, model, language }) => {
            assert_eq!(url, "https://api.groq.com/openai/v1/audio/transcriptions");
            assert_eq!(api_key, "k");
            assert_eq!(model, "whisper-large-v3");
            assert_eq!(language, "en");
        }
        other => panic!("unexpected {:?}", other),
    }
}

#[test]
fn local_mode_with_missing_model() {
    let mut cfg = Config::default();
    cfg.model.path = "/nonexistent/dir/ggml-none.bin".to_string();
    assert_eq!(build_transcriber_plan(&cfg).unwrap_err(), PlanError::NoModel);
    assert_eq!(PlanError::NoModel.message(), "No model found. Download one first.");
}

#[test]
fn local_mode_with_existing_model() {
    // The root directory always exists.
    let mut cfg = Config::default();
    cfg.model.path = "/".to_string();
    cfg.model.language = "auto".to_string();
    match build_transcriber_plan(&cfg) {
        Ok(TranscriberPlan::Local { model_path, whisper_language }) => {
            assert_eq!(model_path, cfg.model.path);
            assert_eq!(whisper_language, None);
        }
        other => panic!("unexpected {:?}", other),
    }
}

#[test]
fn local_plan_from_a_resolved_path() {
    let mut cfg = Config::default();
    cfg.model.language = "auto".to_string();
    match local_plan(&cfg, Ok("/m/ggml-base.bin".to_string())) {
        Ok(TranscriberPlan::Local { model_path, whisper_language }) => {
            assert_eq!(model_path, "/m/ggml-base.bin");
            assert_eq!(whisper_language, None);
        }
        _ => panic!("expected a local plan"),
    }
    cfg.model.language = "de".to_string();
    match local_plan(&cfg, Ok("/x".to_string())) {
        Ok(TranscriberPlan::Local { whisper_language, .. }) => {
            assert_eq!(whisper_language, Some("de".to_string()))
        }
        _ => panic!("expected a local plan"),
    }
    assert!(matches!(local_plan(&cfg, Err(ModelPathError::NotFound)), Err(PlanError::NoModel)));
    assert!(matches!(
        local_plan(&cfg, Err(ModelPathError::ConfiguredMissing("/gone".to_string()))),
        Err(PlanError::NoModel)
    ));
}
