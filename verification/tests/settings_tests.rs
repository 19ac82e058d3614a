use typingsucks::config::{Config, TranscriptionMode};
use typingsucks::model::scanned_model;
use typingsucks::settings::{daemon_status, DaemonStatus, SettingsApp};

fn strings(v: &[&str]) -> Vec<String> {
    v.iter().map(|s| s.to_string()).collect()
}

#[test]
fn new_selects_base_en_and_language() {
    let mut cfg = Config::default();
    cfg.model.language = "fr".to_string();
    let app = SettingsApp::new(cfg, strings(&["tiny", "base.en"]), false);
    assert_eq!(app.model_idx, 1);
    assert_eq!(app.language_idx, 6);
    assert!(app.needs_input_group);
    assert_eq!(app.hotkey_string, "Meta+Z");
}

#[test]
fn new_selects_model_of_configured_path() {
    let mut cfg = Config::default();
    cfg.model.path = "/d/models/ggml-small.bin".to_string();
    cfg.model.language = "xx".to_string();
    let app = SettingsApp::new(cfg, strings(&["tiny", "base", "small"]), true);
    assert_eq!(app.model_idx, 2);
    assert_eq!(app.language_idx, 0);
    assert!(!app.needs_input_group);
}

#[test]
fn saving_writes_fields_into_config() {
    let mut app = SettingsApp::new(Config::default(), strings(&["tiny", "base.en"]), true);
    app.hotkey_string = "Ctrl+Space".to_string();
    app.api_url = "http://h".to_string();
    app.language_idx = 2;
    app.apply_to_config("/d/models");
    assert_eq!(app.config.hotkey.key, "Ctrl+Space");
    assert_eq!(app.config.model.path, "/d/models/ggml-base.en.bin");
    assert_eq!(app.config.model.language, "ja");
    assert_eq!(app.config.transcription.api_url, "http://h");
    app.finish_save(None);
    assert_eq!(app.status_msg, "Settings saved.");
    app.daemon_stopped();
    app.daemon_started();
    app.finish_restart();
    assert_eq!(app.status_msg, "Settings saved. Daemon restarted.");
    app.finish_save(Some("disk full".to_string()));
    assert_eq!(app.status_msg, "Save failed: disk full");
    assert!(app.status_is_failure());
}

#[test]
fn api_mode_keeps_model_path() {
    let mut cfg = Config::default();
    cfg.transcription.mode = TranscriptionMode::Api;
    cfg.model.path = "/keep".to_string();
    let mut app = SettingsApp::new(cfg, strings(&["tiny"]), true);
    app.apply_to_config("/d");
    assert_eq!(app.config.model.path, "/keep");
    assert!(!app.can_start());
    app.api_url = "u".to_string();
    app.api_key = "k".to_string();
    assert!(app.can_start());
    assert!(app.can_test_api(false));
    assert!(!app.can_test_api(true));
    assert!(!app.offers_scan(false));
    assert!(!app.offers_downloads(false));
}

#[test]
fn local_mode_offers_scan_and_downloads() {
    let app = SettingsApp::new(Config::default(), Vec::new(), true);
    assert!(app.offers_scan(false));
    assert!(!app.offers_scan(true));
    assert!(!app.offers_downloads(false));
    let app = SettingsApp::new(Config::default(), strings(&["tiny"]), true);
    assert!(app.offers_downloads(false));
    assert!(!app.offers_downloads(true));
}

#[test]
fn api_test_outcomes() {
    let mut app = SettingsApp::new(Config::default(), Vec::new(), true);
    app.api_model = "b".to_string();
    app.finish_api_test(Ok(strings(&["a", "b"])));
    assert_eq!(app.status_msg, "API connected \u{2014} 2 models loaded.");
    assert_eq!(app.api_model_idx, 1);
    app.finish_api_test(Ok(strings(&["only"])));
    assert_eq!(app.status_msg, "API connected \u{2014} 1 model loaded.");
    assert_eq!(app.api_model_idx, 0);
    app.finish_api_test(Ok(Vec::new()));
    assert_eq!(app.status_msg, "API connected. Enter model name manually.");
    assert!(app.api_fetched_models.is_empty());
    app.finish_api_test(Err("no route".to_string()));
    assert_eq!(app.status_msg, "API test failed: no route");
    assert!(app.status_is_failure());
}

#[test]
fn stale_model_list_is_dropped() {
    let mut app = SettingsApp::new(Config::default(), Vec::new(), true);
    app.api_url = "u".to_string();
    app.api_key = "k".to_string();
    app.begin_api_test();
    app.finish_api_test(Ok(strings(&["w1", "w2"])));
    app.api_model_idx = 1;
    app.sync_selected_api_model();
    assert_eq!(app.api_model, "w2");
    app.invalidate_stale_models();
    assert_eq!(app.api_fetched_models.len(), 2);
    app.api_key = "k2".to_string();
    app.invalidate_stale_models();
    assert!(app.api_fetched_models.is_empty());
    assert_eq!(app.api_model_idx, 0);
}

#[test]
fn hotkey_recording_and_escape() {
    let mut app = SettingsApp::new(Config::default(), Vec::new(), true);
    app.begin_hotkey_recording(None);
    assert!(app.recording_hotkey);
    app.finish_hotkey_recording("Escape".to_string());
    assert!(!app.recording_hotkey);
    assert_eq!(app.hotkey_string, "Meta+Z");
    app.finish_hotkey_recording("Alt+R".to_string());
    assert_eq!(app.hotkey_string, "Alt+R");
    app.begin_hotkey_recording(Some("no devices".to_string()));
    assert_eq!(app.status_msg, "Can't record hotkey: no devices");
}

#[test]
fn downloads_and_refresh() {
    let mut app = SettingsApp::new(Config::default(), strings(&["tiny", "base"]), true);
    app.model_idx = 1;
    let offered: Vec<&str> = app.downloads_offered().iter().map(|p| p.0).collect();
    assert_eq!(offered.len(), 10);
    assert!(!offered.contains(&"tiny"));
    assert_eq!(app.downloads_offered()[0], ("tiny.en", 75));
    app.finish_download("small", None, strings(&["tiny"]));
    assert_eq!(app.status_msg, "Downloaded small successfully.");
    assert_eq!(app.model_idx, 0);
    app.finish_download("x", Some("404".to_string()), Vec::new());
    assert_eq!(app.status_msg, "Download failed: 404");
    assert_eq!(app.downloaded_models, strings(&["tiny"]));
}

#[test]
fn scan_and_import() {
    let mut app = SettingsApp::new(Config::default(), Vec::new(), true);
    app.finish_scan(Vec::new());
    assert_eq!(app.status_msg, "No new models found on disk.");
    let hit = scanned_model("base", "/h/.cache/whisper/ggml-base.bin", Some(147_951_465)).unwrap();
    app.finish_scan(vec![hit]);
    app.finish_import(0, Some("exists".to_string()), Vec::new());
    assert_eq!(app.status_msg, "Link failed: exists");
    assert_eq!(app.scan_results.len(), 1);
    app.finish_import(0, None, strings(&["base"]));
    assert_eq!(app.status_msg, "Linked base \u{2713}");
    assert!(app.scan_results.is_empty());
    assert_eq!(app.downloaded_models, strings(&["base"]));
}

#[test]
fn permissions_outcomes() {
    let mut app = SettingsApp::new(Config::default(), Vec::new(), false);
    app.finish_fix_permissions(Ok(false));
    assert_eq!(app.status_msg, "Permission denied or cancelled.");
    app.finish_fix_permissions(Err("not found".to_string()));
    assert_eq!(app.status_msg, "Failed to run pkexec: not found");
    app.finish_fix_permissions(Ok(true));
    assert!(!app.needs_input_group);
    assert!(app.needs_relogin);
    assert_eq!(app.status_msg, "");
}

#[test]
fn status_line() {
    assert_eq!(daemon_status(false, 1), DaemonStatus::Stopped);
    assert_eq!(daemon_status(true, 1), DaemonStatus::Recording);
    assert_eq!(daemon_status(true, 2).label(), "Transcribing...");
    assert_eq!(daemon_status(true, 0).label(), "Running");
    assert_eq!(DaemonStatus::Stopped.label(), "Stopped");
}

#[test]
fn start_failures_show() {
    let mut app = SettingsApp::new(Config::default(), Vec::new(), true);
    app.daemon_start_failed("no model");
    assert_eq!(app.status_msg, "Failed to start: no model");
    assert!(app.status_is_failure());
}
