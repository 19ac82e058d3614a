use typingsucks::config::{
    config_dir_from, data_dir_from, default_auto_paste, default_key, default_language,
    default_sample_rate, join_path, runtime_dir_from, Config, TranscriptionConfig,
    TranscriptionMode,
};

#[test]
fn default_config_values() {
    let cfg = Config::default();
    assert_eq!(cfg.hotkey.key, "Meta+Z");
    assert_eq!(cfg.model.path, "");
    assert_eq!(cfg.model.language, "en");
    assert_eq!(cfg.audio.sample_rate, 16000);
    assert!(cfg.behavior.auto_paste);
    assert_eq!(cfg.transcription.mode, TranscriptionMode::Local);
    assert_eq!(cfg.transcription.api_url, "");
    assert_eq!(cfg.transcription.api_key, "");
    assert_eq!(cfg.transcription.api_model, "");
}

#[test]
fn default_field_functions() {
    assert_eq!(default_key(), "Meta+Z");
    assert_eq!(default_language(), "en");
    assert_eq!(default_sample_rate(), 16000);
    assert!(default_auto_paste());
    assert_eq!(TranscriptionMode::default(), TranscriptionMode::Local);
    let t = TranscriptionConfig::default();
    assert_eq!(t.mode, TranscriptionMode::Local);
    assert!(t.api_url.is_empty());
}

#[test]
fn joins_paths_like_pathbuf() {
    assert_eq!(join_path("/home/a", "b"), "/home/a/b");
    assert_eq!(join_path("/home/a/", "b"), "/home/a/b");
    assert_eq!(join_path("", "b"), "b");
    assert_eq!(join_path("/home/a", "/etc"), "/etc");
    assert_eq!(join_path("/data", "whisper.cpp/models"), "/data/whisper.cpp/models");
}

#[test]
fn directories_from_platform_lookups() {
    assert_eq!(config_dir_from(Some("/home/al/.config".to_string())), "/home/al/.config/typingsucks");
    assert_eq!(config_dir_from(None), "~/.config/typingsucks");
    assert_eq!(data_dir_from(None), "~/.local/share/typingsucks");
    assert_eq!(data_dir_from(Some("/x/".to_string())), "/x/typingsucks");
    assert_eq!(runtime_dir_from(None), "/tmp/typingsucks");
    assert_eq!(runtime_dir_from(Some("/run/user/1001/".to_string())), "/run/user/1001/typingsucks");
}

#[test]
fn config_path_ends_in_config_file() {
    let p = typingsucks::config::config_path();
    assert!(p.ends_with("/typingsucks/config.toml"));
    let m = typingsucks::config::models_dir();
    assert!(m.ends_with("/typingsucks/models"));
}
