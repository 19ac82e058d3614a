use vstd::prelude::*;
use vstd::string::StringExecFns;
use crate::config::{Config, TranscriptionMode, join_path, join_spec};
use crate::model::{ScannedModel, catalog, find_in, find_model};
use crate::text::{
    chars_of, contains_chars, contains_seq, first_index, position_of, position_of_static, str_eq,
    strings_view,
};
use crate::api_models::{decimal, push_decimal};

verus! {

/// The spoken languages offered in the settings window.
pub open spec fn language_options() -> Seq<Seq<char>> {
    seq![
        "en"@, "id"@, "ja"@, "zh"@, "ko"@, "es"@, "fr"@, "de"@, "pt"@, "ru"@, "ar"@, "hi"@,
        "it"@, "nl"@, "pl"@, "tr"@, "vi"@, "th"@,
    ]
}

/// The spoken languages offered in the settings window.
pub fn language_list() -> (r: Vec<&'static str>)
    ensures
        r@.map_values(|s: &'static str| s@) == language_options(),
{
    let r = vec![
        "en", "id", "ja", "zh", "ko", "es", "fr", "de", "pt", "ru", "ar", "hi", "it", "nl", "pl",
        "tr", "vi", "th",
    ];
    assert(r@.map_values(|s: &'static str| s@) =~= language_options());
    r
}

/// The models offered for download, with their approximate sizes in MB.
pub open spec fn model_sizes() -> Seq<(Seq<char>, u64)> {
    seq![
        ("tiny"@, 75), ("tiny.en"@, 75), ("base"@, 142), ("base.en"@, 142), ("small"@, 466),
        ("small.en"@, 466), ("medium"@, 1500), ("medium.en"@, 1500), ("large-v1"@, 2900),
        ("large-v2"@, 2900), ("large-v3"@, 2900), ("large-v3-turbo"@, 1600),
    ]
}

/// The models offered for download, with their approximate sizes in MB.
pub fn model_size_list() -> (r: Vec<(&'static str, u64)>)
    ensures
        r@.map_values(|p: (&'static str, u64)| (p.0@, p.1)) == model_sizes(),
{
    let r = vec![
        ("tiny", 75u64), ("tiny.en", 75), ("base", 142), ("base.en", 142), ("small", 466),
        ("small.en", 466), ("medium", 1500), ("medium.en", 1500), ("large-v1", 2900),
        ("large-v2", 2900), ("large-v3", 2900), ("large-v3-turbo", 1600),
    ];
    assert(r@.map_values(|p: (&'static str, u64)| (p.0@, p.1)) =~= model_sizes());
    r
}

/// Whether the downloaded model `m` is the model file that `path` mentions.
pub open spec fn names_file_in(m: Seq<char>, path: Seq<char>) -> bool {
    match find_in(catalog(), m) {
        Some(info) => contains_seq(path, info.1),
        None => false,
    }
}

/// The first downloaded model whose file `path` mentions.
pub open spec fn first_in_path(list: Seq<Seq<char>>, path: Seq<char>) -> Option<int>
    decreases list.len(),
{
    if list.len() == 0 {
        None
    } else if names_file_in(list[0], path) {
        Some(0)
    } else {
        match first_in_path(list.drop_first(), path) {
            Some(i) => Some(i + 1),
            None => None,
        }
    }
}

/// An optional position, or 0.
pub open spec fn or_zero(o: Option<int>) -> int {
    match o {
        Some(i) => i,
        None => 0,
    }
}

/// The model selected at start: with no model path configured, "base.en" if it is
/// downloaded; otherwise the first downloaded model whose file the path mentions;
/// the first model when neither applies.
pub open spec fn initial_model_idx(downloaded: Seq<Seq<char>>, path: Seq<char>) -> int {
    if path.len() == 0 {
        or_zero(first_index(downloaded, "base.en"@))
    } else {
        or_zero(first_in_path(downloaded, path))
    }
}

/// What the daemon's status line says.
#[derive(Debug, Clone, Copy, PartialEq, Eq, Structural)]
pub enum DaemonStatus {
    Recording,
    Transcribing,
    Running,
    Stopped,
}

impl DaemonStatus {
    /// The status line's text.
    pub open spec fn label_spec(self) -> Seq<char> {
        match self {
            DaemonStatus::Recording => "Recording..."@,
            DaemonStatus::Transcribing => "Transcribing..."@,
            DaemonStatus::Running => "Running"@,
            DaemonStatus::Stopped => "Stopped"@,
        }
    }

    pub fn label(&self) -> (r: &'static str)
        ensures
            r@ == self.label_spec(),
    {
        match self {
            DaemonStatus::Recording => "Recording...",
            DaemonStatus::Transcribing => "Transcribing...",
            DaemonStatus::Running => "Running",
            DaemonStatus::Stopped => "Stopped",
        }
    }
}

/// The status line for a daemon that runs (or not) and publishes a popup code.
pub open spec fn daemon_status_spec(running: bool, code: u8) -> DaemonStatus {
    if !running {
        DaemonStatus::Stopped
    } else if code == 1 {
        DaemonStatus::Recording
    } else if code == 2 {
        DaemonStatus::Transcribing
    } else {
        DaemonStatus::Running
    }
}

/// The status line for a daemon that runs (or not) and publishes a popup code.
pub fn daemon_status(running: bool, code: u8) -> (r: DaemonStatus)
    ensures
        r == daemon_status_spec(running, code),
{
    if !running {
        DaemonStatus::Stopped
    } else if code == 1 {
        DaemonStatus::Recording
    } else if code == 2 {
        DaemonStatus::Transcribing
    } else {
        DaemonStatus::Running
    }
}

/// What the settings window holds besides its widgets.
pub struct SettingsApp {
    pub config: Config,
    pub downloaded_models: Vec<String>,
    pub status_msg: String,
    pub needs_input_group: bool,
    pub needs_relogin: bool,
    pub hotkey_string: String,
    pub recording_hotkey: bool,
    pub model_idx: usize,
    pub language_idx: usize,
    pub api_url: String,
    pub api_key: String,
    pub api_model: String,
    pub api_fetched_models: Vec<String>,
    pub api_model_idx: usize,
    pub api_tested_url: String,
    pub api_tested_key: String,
    pub scan_results: Vec<ScannedModel>,
}

fn first_model_in_path(list: &Vec<String>, path: &str) -> (r: usize)
    ensures
        r as int == or_zero(first_in_path(strings_view(list@), path@)),
{
    let ghost views = strings_view(list@);
    let mut i: usize = 0;
    assert(views.skip(0) =~= views);
    while i < list.len()
        invariant
            i <= list.len(),
            views == strings_view(list@),
            first_in_path(views, path@) == (match first_in_path(views.skip(i as int), path@) {
                Some(k) => Some(k + i),
                None => None,
            }),
        decreases list.len() - i,
    {
        assert(views.skip(i as int)[0] == list@[i as int]@);
        assert(views.skip(i as int).drop_first() =~= views.skip(i + 1));
        let hit = match find_model(list[i].as_str()) {
            Some(info) => contains_chars(&chars_of(path), &chars_of(info.filename)),
            None => false,
        };
        if hit {
            return i;
        }
        i = i + 1;
    }
    assert(views.skip(i as int).len() == 0);
    0
}

impl SettingsApp {
    /// Well formed: the selected language is one of the options.
    pub open spec fn wf(&self) -> bool {
        self.language_idx < language_options().len()
    }

    /// The window's state for `config`, the downloaded models, and whether the user
    /// is in the `input` group (needed to read the keyboard).
    pub fn new(config: Config, downloaded: Vec<String>, in_input_group: bool) -> (r: Self)
        ensures
            r.wf(),
            r.config == config,
            r.downloaded_models == downloaded,
            r.needs_input_group == !in_input_group,
            !r.needs_relogin,
            r.status_msg@ == Seq::<char>::empty(),
            r.hotkey_string@ == config.hotkey.key@,
            !r.recording_hotkey,
            r.model_idx as int == initial_model_idx(strings_view(downloaded@), config.model.path@),
            r.language_idx as int == or_zero(first_index(language_options(), config.model.language@)),
            r.api_url@ == config.transcription.api_url@,
            r.api_key@ == config.transcription.api_key@,
            r.api_model@ == config.transcription.api_model@,
            r.api_fetched_models@.len() == 0,
            r.api_model_idx == 0,
            r.api_tested_url@ == Seq::<char>::empty(),
            r.api_tested_key@ == Seq::<char>::empty(),
            r.scan_results@.len() == 0,
    {
        let model_idx = if config.model.path.as_str().is_empty() {
            match position_of(&downloaded, "base.en") {
                Some(i) => i,
                None => 0,
            }
        } else {
            first_model_in_path(&downloaded, config.model.path.as_str())
        };
        let languages = language_list();
        let language_idx = match position_of_static(&languages, config.model.language.as_str()) {
            Some(i) => i,
            None => 0,
        };
        let hotkey_string = config.hotkey.key.clone();
        let api_url = config.transcription.api_url.clone();
        let api_key = config.transcription.api_key.clone();
        let api_model = config.transcription.api_model.clone();
        SettingsApp {
            config,
            downloaded_models: downloaded,
            status_msg: String::new(),
            needs_input_group: !in_input_group,
            needs_relogin: false,
            hotkey_string,
            recording_hotkey: false,
            model_idx,
            language_idx,
            api_url,
            api_key,
            api_model,
            api_fetched_models: Vec::new(),
            api_model_idx: 0,
            api_tested_url: String::new(),
            api_tested_key: String::new(),
            scan_results: Vec::new(),
        }
    }
}


/// "API connected — N model(s) loaded." for `count` fetched models.
pub open spec fn connected_message(count: nat) -> Seq<char> {
    "API connected \u{2014} "@ + decimal(count) + " model"@ + (if count == 1 {
        Seq::<char>::empty()
    } else {
        "s"@
    }) + " loaded."@
}

/// Whether a status message reports a failure (it mentions "failed" or "Failed").
pub open spec fn is_failure_message(msg: Seq<char>) -> bool {
    contains_seq(msg, "failed"@) || contains_seq(msg, "Failed"@)
}

/// `prefix` followed by `rest`, as a new string.
fn concat(prefix: &str, rest: &str) -> (r: String)
    ensures
        r@ == prefix@ + rest@,
{
    let mut m = prefix.to_owned();
    m.append(rest);
    m
}

impl SettingsApp {
    /// Shows the outcome of a model download: its error, or success (with the list of
    /// downloaded models read afresh, `downloaded_now`).
    pub fn finish_download(&mut self, model_name: &str, error: Option<String>, downloaded_now: Vec<String>)
        requires
            old(self).wf(),
        ensures
            final(self).wf(),
            *final(self) == (SettingsApp { status_msg: final(self).status_msg, downloaded_models: final(self).downloaded_models, model_idx: final(self).model_idx, ..*old(self) }),
            match error {
                Some(e) => final(self).status_msg@ == "Download failed: "@ + e@
                    && final(self).downloaded_models == old(self).downloaded_models
                    && final(self).model_idx == old(self).model_idx,
                None => final(self).status_msg@ == "Downloaded "@ + model_name@
                    + " successfully."@ && final(self).downloaded_models == downloaded_now
                    && final(self).model_idx == (if old(self).model_idx < downloaded_now.len() {
                    old(self).model_idx
                } else {
                    0
                }),
            },
    {
        match error {
            Some(e) => {
                self.status_msg = concat("Download failed: ", e.as_str());
            },
            None => {
                let mut m = concat("Downloaded ", model_name);
                m.append(" successfully.");
                self.status_msg = m;
                self.refresh_models(downloaded_now);
            },
        }
    }

    /// Takes in the list of downloaded models read afresh; the selection falls back to
    /// the first model when it is past the end.
    pub fn refresh_models(&mut self, downloaded_now: Vec<String>)
        requires
            old(self).wf(),
        ensures
            final(self).wf(),
            *final(self) == (SettingsApp { downloaded_models: final(self).downloaded_models, model_idx: final(self).model_idx, ..*old(self) }),
            final(self).downloaded_models == downloaded_now,
            final(self).model_idx == (if old(self).model_idx < downloaded_now.len() {
                old(self).model_idx
            } else {
                0
            }),
            final(self).status_msg == old(self).status_msg,
            final(self).scan_results == old(self).scan_results,
            final(self).language_idx == old(self).language_idx,
    {
        self.downloaded_models = downloaded_now;
        if self.model_idx >= self.downloaded_models.len() {
            self.model_idx = 0;
        }
    }

    /// Shows the outcome of an API test: its error (the fetched list is dropped), an
    /// empty list (enter the model by hand), or the fetched models, with the saved
    /// model selected if it is among them (else the first).
    pub fn finish_api_test(&mut self, result: Result<Vec<String>, String>)
        requires
            old(self).wf(),
        ensures
            final(self).wf(),
            *final(self) == (SettingsApp { status_msg: final(self).status_msg, api_fetched_models: final(self).api_fetched_models, api_model_idx: final(self).api_model_idx, ..*old(self) }),
            final(self).api_model == old(self).api_model,
            match result {
                Err(e) => final(self).status_msg@ == "API test failed: "@ + e@
                    && final(self).api_fetched_models@.len() == 0
                    && final(self).api_model_idx == old(self).api_model_idx,
                Ok(list) => if list.len() == 0 {
                    final(self).status_msg@ == "API connected. Enter model name manually."@
                        && final(self).api_fetched_models@.len() == 0
                        && final(self).api_model_idx == old(self).api_model_idx
                } else {
                    final(self).status_msg@ == connected_message(list.len() as nat)
                        && final(self).api_fetched_models == list && final(self).api_model_idx as int
                        == or_zero(first_index(strings_view(list@), old(self).api_model@))
                },
            },
    {
        match result {
            Err(e) => {
                self.status_msg = concat("API test failed: ", e.as_str());
                self.api_fetched_models = Vec::new();
            },
            Ok(list) => {
                if list.len() == 0 {
                    self.status_msg = "API connected. Enter model name manually.".to_owned();
                    self.api_fetched_models = Vec::new();
                } else {
                    let count = list.len();
                    let mut v = chars_of("API connected \u{2014} ");
                    push_decimal(&mut v, count as u64);
                    crate::text::push_str(&mut v, " model");
                    if count != 1 {
                        crate::text::push_str(&mut v, "s");
                    }
                    crate::text::push_str(&mut v, " loaded.");
                    assert(v@ =~= connected_message(count as nat));
                    self.status_msg = crate::text::string_of(v.as_slice());
                    self.api_model_idx = match position_of(&list, self.api_model.as_str()) {
                        Some(i) => i,
                        None => 0,
                    };
                    self.api_fetched_models = list;
                }
            },
        }
    }

    /// Drops the fetched model list when the API address or key changed since it
    /// was fetched.
    pub fn invalidate_stale_models(&mut self)
        requires
            old(self).wf(),
        ensures
            final(self).wf(),
            *final(self) == (SettingsApp { api_fetched_models: final(self).api_fetched_models, api_model_idx: final(self).api_model_idx, ..*old(self) }),
            final(self).status_msg == old(self).status_msg,
            final(self).api_url == old(self).api_url,
            final(self).api_key == old(self).api_key,
            if old(self).api_fetched_models@.len() > 0 && (old(self).api_url@ != old(
                self,
            ).api_tested_url@ || old(self).api_key@ != old(self).api_tested_key@) {
                final(self).api_fetched_models@.len() == 0 && final(self).api_model_idx == 0
            } else {
                final(self).api_fetched_models == old(self).api_fetched_models
                    && final(self).api_model_idx == old(self).api_model_idx
            },
    {
        if self.api_fetched_models.len() > 0 && (!str_eq(self.api_url.as_str(), self.api_tested_url.as_str())
            || !str_eq(self.api_key.as_str(), self.api_tested_key.as_str())) {
            self.api_fetched_models = Vec::new();
            self.api_model_idx = 0;
        }
    }

    /// Starts an API test of the current address and key, which are remembered.
    pub fn begin_api_test(&mut self)
        requires
            old(self).wf(),
        ensures
            final(self).wf(),
            *final(self) == (SettingsApp { api_tested_url: final(self).api_tested_url, api_tested_key: final(self).api_tested_key, ..*old(self) }),
            final(self).api_tested_url@ == old(self).api_url@,
            final(self).api_tested_key@ == old(self).api_key@,
            final(self).api_url == old(self).api_url,
            final(self).api_key == old(self).api_key,
            final(self).api_fetched_models == old(self).api_fetched_models,
    {
        self.api_tested_url = self.api_url.clone();
        self.api_tested_key = self.api_key.clone();
    }

    /// Takes in a recorded hotkey combo; "Escape" cancels and keeps the old hotkey.
    pub fn finish_hotkey_recording(&mut self, combo: String)
        requires
            old(self).wf(),
        ensures
            final(self).wf(),
            *final(self) == (SettingsApp { hotkey_string: final(self).hotkey_string, recording_hotkey: final(self).recording_hotkey, ..*old(self) }),
            !final(self).recording_hotkey,
            final(self).hotkey_string@ == (if combo@ == "Escape"@ {
                old(self).hotkey_string@
            } else {
                combo@
            }),
    {
        if !str_eq(combo.as_str(), "Escape") {
            self.hotkey_string = combo;
        }
        self.recording_hotkey = false;
    }

    /// Notes that hotkey recording started, or shows why it could not.
    pub fn begin_hotkey_recording(&mut self, error: Option<String>)
        requires
            old(self).wf(),
        ensures
            final(self).wf(),
            *final(self) == (SettingsApp { status_msg: final(self).status_msg, recording_hotkey: final(self).recording_hotkey, ..*old(self) }),
            final(self).hotkey_string == old(self).hotkey_string,
            match error {
                Some(e) => final(self).status_msg@ == "Can't record hotkey: "@ + e@
                    && final(self).recording_hotkey == old(self).recording_hotkey,
                None => final(self).recording_hotkey && final(self).status_msg
                    == old(self).status_msg,
            },
    {
        match error {
            Some(e) => {
                self.status_msg = concat("Can't record hotkey: ", e.as_str());
            },
            None => {
                self.recording_hotkey = true;
            },
        }
    }

    /// Stops recording the hotkey without a result.
    pub fn cancel_hotkey_recording(&mut self)
        requires
            old(self).wf(),
        ensures
            final(self).wf(),
            *final(self) == (SettingsApp { recording_hotkey: final(self).recording_hotkey, ..*old(self) }),
            !final(self).recording_hotkey,
            final(self).hotkey_string == old(self).hotkey_string,
    {
        self.recording_hotkey = false;
    }

    /// Whether the daemon can be started: in API mode once an address and a key are
    /// given; in local mode once a model is downloaded.
    pub fn can_start(&self) -> (r: bool)
        ensures
            r == (if self.config.transcription.mode == TranscriptionMode::Api {
                self.api_url@.len() > 0 && self.api_key@.len() > 0
            } else {
                self.downloaded_models@.len() > 0
            }),
    {
        if self.config.transcription.mode == TranscriptionMode::Api {
            !self.api_url.as_str().is_empty() && !self.api_key.as_str().is_empty()
        } else {
            self.downloaded_models.len() > 0
        }
    }

    /// Whether the window offers a scan for model files already on disk: in local mode,
    /// while no download runs.
    pub fn offers_scan(&self, downloading: bool) -> (r: bool)
        ensures
            r == (self.config.transcription.mode == TranscriptionMode::Local && !downloading),
    {
        self.config.transcription.mode == TranscriptionMode::Local && !downloading
    }

    /// Whether the window offers more models to download: in local mode, once a model
    /// is downloaded, while no download runs.
    pub fn offers_downloads(&self, downloading: bool) -> (r: bool)
        ensures
            r == (self.config.transcription.mode == TranscriptionMode::Local
                && self.downloaded_models@.len() > 0 && !downloading),
    {
        self.config.transcription.mode == TranscriptionMode::Local && self.downloaded_models.len() > 0
            && !downloading
    }

    /// Whether the API can be tested: an address and a key are given and no test runs.
    pub fn can_test_api(&self, testing: bool) -> (r: bool)
        ensures
            r == (self.api_url@.len() > 0 && self.api_key@.len() > 0 && !testing),
    {
        !self.api_url.as_str().is_empty() && !self.api_key.as_str().is_empty() && !testing
    }

    /// Copies the model chosen in the fetched list into the model field.
    pub fn sync_selected_api_model(&mut self)
        requires
            old(self).wf(),
        ensures
            final(self).wf(),
            *final(self) == (SettingsApp { api_model: final(self).api_model, ..*old(self) }),
            old(self).api_model_idx < old(self).api_fetched_models.len() ==> final(self).api_model
                == old(self).api_fetched_models@[old(self).api_model_idx as int],
            old(self).api_model_idx >= old(self).api_fetched_models.len() ==> final(self).api_model
                == old(self).api_model,
            final(self).api_fetched_models == old(self).api_fetched_models,
    {
        if self.api_model_idx < self.api_fetched_models.len() {
            self.api_model = self.api_fetched_models[self.api_model_idx].clone();
        }
    }

    /// Notes that the daemon started.
    pub fn daemon_started(&mut self)
        requires
            old(self).wf(),
        ensures
            final(self).wf(),
            final(self).status_msg@ == Seq::<char>::empty(),
            *final(self) == (SettingsApp { status_msg: final(self).status_msg, ..*old(self) }),
    {
        self.status_msg = String::new();
    }

    /// Shows why the daemon could not start.
    pub fn daemon_start_failed(&mut self, error: &str)
        requires
            old(self).wf(),
        ensures
            final(self).wf(),
            *final(self) == (SettingsApp { status_msg: final(self).status_msg, ..*old(self) }),
            final(self).status_msg@ == "Failed to start: "@ + error@,
    {
        self.status_msg = concat("Failed to start: ", error);
    }

    /// Notes that the daemon stopped.
    pub fn daemon_stopped(&mut self)
        requires
            old(self).wf(),
        ensures
            final(self).wf(),
            *final(self) == (SettingsApp { status_msg: final(self).status_msg, ..*old(self) }),
            final(self).status_msg@ == Seq::<char>::empty(),
    {
        self.status_msg = String::new();
    }

    /// Shows the outcome of adding the user to the `input` group: `Ok(true)` when it
    /// worked (a new login is needed), `Ok(false)` when it was refused or cancelled,
    /// `Err` when the tool could not run.
    pub fn finish_fix_permissions(&mut self, result: Result<bool, String>)
        requires
            old(self).wf(),
        ensures
            final(self).wf(),
            *final(self) == (SettingsApp { status_msg: final(self).status_msg, needs_input_group: final(self).needs_input_group, needs_relogin: final(self).needs_relogin, ..*old(self) }),
            match result {
                Ok(true) => !final(self).needs_input_group && final(self).needs_relogin
                    && final(self).status_msg@ == Seq::<char>::empty(),
                Ok(false) => final(self).status_msg@ == "Permission denied or cancelled."@
                    && final(self).needs_input_group == old(self).needs_input_group
                    && final(self).needs_relogin == old(self).needs_relogin,
                Err(e) => final(self).status_msg@ == "Failed to run pkexec: "@ + e@
                    && final(self).needs_input_group == old(self).needs_input_group
                    && final(self).needs_relogin == old(self).needs_relogin,
            },
    {
        match result {
            Ok(true) => {
                self.needs_input_group = false;
                self.needs_relogin = true;
                self.status_msg = String::new();
            },
            Ok(false) => {
                self.status_msg = "Permission denied or cancelled.".to_owned();
            },
            Err(e) => {
                self.status_msg = concat("Failed to run pkexec: ", e.as_str());
            },
        }
    }

    /// Whether the status message reports a failure (shown in red).
    pub fn status_is_failure(&self) -> (r: bool)
        ensures
            r == is_failure_message(self.status_msg@),
    {
        let v = chars_of(self.status_msg.as_str());
        contains_chars(&v, &chars_of("failed")) || contains_chars(&v, &chars_of("Failed"))
    }
}


/// The model path the settings window saves for the selected downloaded model, if
/// it saves one: only in local mode, with a model selected that is in the catalog.
pub open spec fn saved_model_path(app: SettingsApp, models_dir: Seq<char>) -> Option<Seq<char>> {
    if app.config.transcription.mode == TranscriptionMode::Local && app.downloaded_models@.len() > 0
        && app.model_idx < app.downloaded_models@.len() {
        match find_in(catalog(), app.downloaded_models@[app.model_idx as int]@) {
            Some(info) => Some(join_spec(models_dir, info.1)),
            None => None,
        }
    } else {
        None
    }
}

/// Whether `list` holds `name`.
pub open spec fn lists(list: Seq<Seq<char>>, name: Seq<char>) -> bool {
    list.contains(name)
}

/// The sizes of the models not yet downloaded, in the order of `model_sizes()`.
pub open spec fn offered_downloads(sizes: Seq<(Seq<char>, u64)>, downloaded: Seq<Seq<char>>) -> Seq<(Seq<char>, u64)>
    decreases sizes.len(),
{
    if sizes.len() == 0 {
        sizes
    } else if lists(downloaded, sizes.last().0) {
        offered_downloads(sizes.drop_last(), downloaded)
    } else {
        offered_downloads(sizes.drop_last(), downloaded).push(sizes.last())
    }
}

fn lists_exec(list: &Vec<String>, name: &str) -> (r: bool)
    ensures
        r == lists(strings_view(list@), name@),
{
    let mut i: usize = 0;
    while i < list.len()
        invariant
            i <= list.len(),
            forall|j: int| 0 <= j < i ==> strings_view(list@)[j] != name@,
        decreases list.len() - i,
    {
        if str_eq(list[i].as_str(), name) {
            assert(strings_view(list@)[i as int] == name@);
            return true;
        }
        i = i + 1;
    }
    false
}

impl SettingsApp {
    /// Writes the window's fields into the configuration before it is saved: the
    /// hotkey, the selected model's path in `models_dir` (see `saved_model_path`), the
    /// API fields and the selected language.
    pub fn apply_to_config(&mut self, models_dir: &str)
        requires
            old(self).wf(),
        ensures
            final(self).wf(),
            *final(self) == (SettingsApp { config: final(self).config, ..*old(self) }),
            final(self).config.hotkey.key@ == old(self).hotkey_string@,
            final(self).config.model.path@ == (match saved_model_path(*old(self), models_dir@) {
                Some(p) => p,
                None => old(self).config.model.path@,
            }),
            final(self).config.transcription.api_url@ == old(self).api_url@,
            final(self).config.transcription.api_key@ == old(self).api_key@,
            final(self).config.transcription.api_model@ == old(self).api_model@,
            final(self).config.model.language@ == language_options()[old(self).language_idx as int],
            final(self).config.transcription.mode == old(self).config.transcription.mode,
            final(self).config.audio.sample_rate == old(self).config.audio.sample_rate,
            final(self).config.behavior.auto_paste == old(self).config.behavior.auto_paste,
            final(self).config.audio == old(self).config.audio,
            final(self).config.behavior == old(self).config.behavior,
            final(self).downloaded_models == old(self).downloaded_models,
            final(self).language_idx == old(self).language_idx,
    {
        self.config.hotkey.key = self.hotkey_string.clone();
        if self.config.transcription.mode == TranscriptionMode::Local {
            if self.downloaded_models.len() > 0 && self.model_idx < self.downloaded_models.len() {
                match find_model(self.downloaded_models[self.model_idx].as_str()) {
                    Some(info) => {
                        self.config.model.path = join_path(models_dir, info.filename);
                    },
                    None => {},
                }
            }
        }
        self.config.transcription.api_url = self.api_url.clone();
        self.config.transcription.api_key = self.api_key.clone();
        self.config.transcription.api_model = self.api_model.clone();
        let languages = language_list();
        assert(languages@.map_values(|s: &'static str| s@)[self.language_idx as int]
            == languages@[self.language_idx as int]@);
        self.config.model.language = languages[self.language_idx].to_owned();
    }

    /// Shows the outcome of saving the configuration.
    pub fn finish_save(&mut self, error: Option<String>)
        requires
            old(self).wf(),
        ensures
            final(self).wf(),
            *final(self) == (SettingsApp { status_msg: final(self).status_msg, ..*old(self) }),
            final(self).status_msg@ == (match error {
                Some(e) => "Save failed: "@ + e@,
                None => "Settings saved."@,
            }),
    {
        match error {
            Some(e) => {
                self.status_msg = concat("Save failed: ", e.as_str());
            },
            None => {
                self.status_msg = "Settings saved.".to_owned();
            },
        }
    }

    /// After the daemon was restarted to take in the saved settings: says so, unless
    /// the restart reported a problem.
    pub fn finish_restart(&mut self)
        requires
            old(self).wf(),
        ensures
            final(self).wf(),
            *final(self) == (SettingsApp { status_msg: final(self).status_msg, ..*old(self) }),
            final(self).status_msg@ == (if old(self).status_msg@.len() == 0 {
                "Settings saved. Daemon restarted."@
            } else {
                old(self).status_msg@
            }),
    {
        if self.status_msg.as_str().is_empty() {
            self.status_msg = "Settings saved. Daemon restarted.".to_owned();
        }
    }

    /// The models offered for download: those not downloaded yet, with their sizes.
    pub fn downloads_offered(&self) -> (r: Vec<(&'static str, u64)>)
        ensures
            r@.map_values(|p: (&'static str, u64)| (p.0@, p.1)) == offered_downloads(
                model_sizes(),
                strings_view(self.downloaded_models@),
            ),
    {
        let sizes = model_size_list();
        let ghost sv = sizes@.map_values(|p: (&'static str, u64)| (p.0@, p.1));
        let mut r: Vec<(&'static str, u64)> = Vec::new();
        let mut i: usize = 0;
        while i < sizes.len()
            invariant
                i <= sizes.len(),
                sv == sizes@.map_values(|p: (&'static str, u64)| (p.0@, p.1)),
                sv == model_sizes(),
                r@.map_values(|p: (&'static str, u64)| (p.0@, p.1)) == offered_downloads(
                    sv.take(i as int),
                    strings_view(self.downloaded_models@),
                ),
            decreases sizes.len() - i,
        {
            assert(sv.take(i + 1).drop_last() =~= sv.take(i as int));
            assert(sv[i as int] == (sizes@[i as int].0@, sizes@[i as int].1));
            if !lists_exec(&self.downloaded_models, sizes[i].0) {
                r.push(sizes[i]);
            }
            assert(r@.map_values(|p: (&'static str, u64)| (p.0@, p.1)) =~= offered_downloads(
                sv.take(i + 1),
                strings_view(self.downloaded_models@),
            ));
            i = i + 1;
        }
        assert(sv.take(sizes.len() as int) =~= sv);
        r
    }

    /// Shows the outcome of a scan for model files.
    pub fn finish_scan(&mut self, found: Vec<ScannedModel>)
        requires
            old(self).wf(),
        ensures
            final(self).wf(),
            *final(self) == (SettingsApp { status_msg: final(self).status_msg, scan_results: final(self).scan_results, ..*old(self) }),
            final(self).scan_results == found,
            final(self).status_msg@ == (if found.len() == 0 {
                "No new models found on disk."@
            } else {
                old(self).status_msg@
            }),
    {
        let empty = found.len() == 0;
        self.scan_results = found;
        if empty {
            self.status_msg = "No new models found on disk.".to_owned();
        }
    }

    /// Shows the outcome of linking the scanned model at `idx` into the models
    /// directory; on success it leaves the scan list and the downloaded models are
    /// read afresh (`downloaded_now`).
    pub fn finish_import(&mut self, idx: usize, error: Option<String>, downloaded_now: Vec<String>)
        requires
            old(self).wf(),
            idx < old(self).scan_results.len(),
        ensures
            final(self).wf(),
            *final(self) == (SettingsApp { status_msg: final(self).status_msg, scan_results: final(self).scan_results, downloaded_models: final(self).downloaded_models, model_idx: final(self).model_idx, ..*old(self) }),
            match error {
                None => final(self).status_msg@ == "Linked "@ + old(self).scan_results@[idx as int].name@
                    + " \u{2713}"@ && final(self).scan_results@ == old(self).scan_results@.remove(
                    idx as int,
                ) && final(self).downloaded_models == downloaded_now
                    && final(self).model_idx == (if old(self).model_idx < downloaded_now.len() {
                    old(self).model_idx
                } else {
                    0
                }),
                Some(e) => final(self).status_msg@ == "Link failed: "@ + e@
                    && final(self).scan_results == old(self).scan_results
                    && final(self).downloaded_models == old(self).downloaded_models
                    && final(self).model_idx == old(self).model_idx,
            },
    {
        match error {
            None => {
                let mut m = concat("Linked ", self.scan_results[idx].name.as_str());
                m.append(" \u{2713}");
                self.status_msg = m;
                self.scan_results.remove(idx);
                self.refresh_models(downloaded_now);
            },
            Some(e) => {
                self.status_msg = concat("Link failed: ", e.as_str());
            },
        }
    }
}


/// Whether the group list that `id -Gn` printed mentions the `input` group (a plain
/// substring test).
pub fn lists_input_group(groups: &str) -> (r: bool)
    ensures
        r == contains_seq(groups@, "input"@),
{
    contains_chars(&chars_of(groups), &chars_of("input"))
}

} // verus!
