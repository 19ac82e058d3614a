use vstd::prelude::*;
use crate::text::{chars_of, string_of};

verus! {

/// Where speech is turned into text: on this machine, or by a remote API.
#[derive(Debug, Clone, Copy, PartialEq, Eq, Structural)]
pub enum TranscriptionMode {
    Local,
    Api,
}

impl Default for TranscriptionMode {
    fn default() -> (r: Self)
        ensures
            r == TranscriptionMode::Local,
    {
        TranscriptionMode::Local
    }
}

/// How transcription is done, and the remote API's settings.
#[derive(Debug, Clone)]
pub struct TranscriptionConfig {
    pub mode: TranscriptionMode,
    pub api_url: String,
    pub api_key: String,
    pub api_model: String,
}

impl TranscriptionConfig {
    /// Local mode, with every API field empty.
    pub open spec fn is_default(&self) -> bool {
        &&& self.mode == TranscriptionMode::Local
        &&& self.api_url@ == Seq::<char>::empty()
        &&& self.api_key@ == Seq::<char>::empty()
        &&& self.api_model@ == Seq::<char>::empty()
    }
}

impl Default for TranscriptionConfig {
    fn default() -> (r: Self)
        ensures
            r.is_default(),
    {
        TranscriptionConfig {
            mode: TranscriptionMode::Local,
            api_url: String::new(),
            api_key: String::new(),
            api_model: String::new(),
        }
    }
}

/// The hotkey, by name ("Meta+Z", "F9", ...).
#[derive(Debug, Clone)]
pub struct HotkeyConfig {
    pub key: String,
}

/// The local model file (empty: pick one) and the spoken language.
#[derive(Debug, Clone)]
pub struct ModelConfig {
    pub path: String,
    pub language: String,
}

/// The capture sample rate.
#[derive(Debug, Clone)]
pub struct AudioConfig {
    pub sample_rate: u32,
}

/// Whether the text is pasted after it reaches the clipboard.
#[derive(Debug, Clone)]
pub struct BehaviorConfig {
    pub auto_paste: bool,
}

/// The whole configuration, as the config file holds it.
#[derive(Debug, Clone)]
pub struct Config {
    pub hotkey: HotkeyConfig,
    pub model: ModelConfig,
    pub audio: AudioConfig,
    pub behavior: BehaviorConfig,
    pub transcription: TranscriptionConfig,
}

/// The default hotkey.
pub open spec fn default_key_spec() -> Seq<char> {
    "Meta+Z"@
}

/// The default spoken language.
pub open spec fn default_language_spec() -> Seq<char> {
    "en"@
}

/// The default capture sample rate, in Hz.
pub open spec fn default_sample_rate_spec() -> u32 {
    16000
}

impl Config {
    /// The configuration that a missing config file stands for.
    pub open spec fn is_default(&self) -> bool {
        &&& self.hotkey.key@ == default_key_spec()
        &&& self.model.path@ == Seq::<char>::empty()
        &&& self.model.language@ == default_language_spec()
        &&& self.audio.sample_rate == default_sample_rate_spec()
        &&& self.behavior.auto_paste
        &&& self.transcription.is_default()
    }
}

pub fn default_transcription() -> (r: TranscriptionConfig)
    ensures
        r.is_default(),
{
    TranscriptionConfig::default()
}

pub fn default_key() -> (r: String)
    ensures
        r@ == default_key_spec(),
{
    "Meta+Z".to_owned()
}

pub fn default_language() -> (r: String)
    ensures
        r@ == default_language_spec(),
{
    "en".to_owned()
}

pub fn default_sample_rate() -> (r: u32)
    ensures
        r == default_sample_rate_spec(),
{
    16000
}

pub fn default_auto_paste() -> (r: bool)
    ensures
        r,
{
    true
}

pub fn default_hotkey() -> (r: HotkeyConfig)
    ensures
        r.key@ == default_key_spec(),
{
    HotkeyConfig { key: default_key() }
}

pub fn default_model() -> (r: ModelConfig)
    ensures
        r.path@ == Seq::<char>::empty(),
        r.language@ == default_language_spec(),
{
    ModelConfig { path: String::new(), language: default_language() }
}

pub fn default_audio() -> (r: AudioConfig)
    ensures
        r.sample_rate == default_sample_rate_spec(),
{
    AudioConfig { sample_rate: default_sample_rate() }
}

pub fn default_behavior() -> (r: BehaviorConfig)
    ensures
        r.auto_paste,
{
    BehaviorConfig { auto_paste: default_auto_paste() }
}

impl Default for Config {
    fn default() -> (r: Self)
        ensures
            r.is_default(),
    {
        Config {
            hotkey: default_hotkey(),
            model: default_model(),
            audio: default_audio(),
            behavior: default_behavior(),
            transcription: default_transcription(),
        }
    }
}

/// `base` extended by `name`, as `PathBuf::push` does it on Unix: an absolute `name`
/// replaces `base`; otherwise a `/` separates the two unless `base` is empty or
/// already ends in one.
pub open spec fn join_spec(base: Seq<char>, name: Seq<char>) -> Seq<char> {
    if name.len() > 0 && name[0] == '/' {
        name
    } else if base.len() == 0 || base.last() == '/' {
        base + name
    } else {
        base + seq!['/'] + name
    }
}

/// `base` extended by `name` (see `join_spec`).
pub fn join_path(base: &str, name: &str) -> (r: String)
    ensures
        r@ == join_spec(base@, name@),
{
    let b = chars_of(base);
    let n = chars_of(name);
    if n.len() > 0 && n[0] == '/' {
        return string_of(n.as_slice());
    }
    let mut out = b;
    if out.len() > 0 && out[out.len() - 1] != '/' {
        out.push('/');
    }
    let mut i: usize = 0;
    let ghost start = out@;
    while i < n.len()
        invariant
            i <= n.len(),
            out@ == start + n@.take(i as int),
        decreases n.len() - i,
    {
        out.push(n[i]);
        i = i + 1;
    }
    proof {
        assert(n@.take(n@.len() as int) =~= n@);
        if b@.len() > 0 && b@.last() != '/' {
            assert(start =~= b@ + seq!['/']);
        } else {
            assert(start =~= b@);
        }
    }
    string_of(out.as_slice())
}

/// The directory that a platform lookup gave, or the fallback where it gave none.
pub open spec fn base_or(found: Option<Seq<char>>, fallback: Seq<char>) -> Seq<char> {
    match found {
        Some(b) => b,
        None => fallback,
    }
}

/// The configuration directory, given the platform's config directory, if any.
pub open spec fn config_dir_spec(found: Option<Seq<char>>) -> Seq<char> {
    join_spec(base_or(found, "~/.config"@), "typingsucks"@)
}

/// The data directory, given the platform's data directory, if any.
pub open spec fn data_dir_spec(found: Option<Seq<char>>) -> Seq<char> {
    join_spec(base_or(found, "~/.local/share"@), "typingsucks"@)
}

/// The runtime directory, given the platform's runtime directory, if any.
pub open spec fn runtime_dir_spec(found: Option<Seq<char>>) -> Seq<char> {
    join_spec(base_or(found, "/tmp"@), "typingsucks"@)
}

/// The view of an optional string.
pub open spec fn opt_view(o: Option<String>) -> Option<Seq<char>> {
    match o {
        Some(s) => Some(s@),
        None => None,
    }
}

/// Calls `dirs::config_dir` (on Linux `$XDG_CONFIG_HOME`, or `$HOME/.config`), and
/// turns the path into a string, lossily (a byte sequence that is not UTF-8
/// becomes U+FFFD). What it returns rests on the environment,
/// so nothing is promised of it.
#[verifier::external_body]
fn platform_config_dir() -> Option<String> {
    match dirs::config_dir() {
        Some(p) => Some(p.to_string_lossy().into_owned()),
        None => None,
    }
}

/// Calls `dirs::data_dir` (on Linux `$XDG_DATA_HOME`, or `$HOME/.local/share`), and
/// turns the path into a string, lossily (a byte sequence that is not UTF-8
/// becomes U+FFFD). What it returns rests on the environment,
/// so nothing is promised of it.
#[verifier::external_body]
fn platform_data_dir() -> Option<String> {
    match dirs::data_dir() {
        Some(p) => Some(p.to_string_lossy().into_owned()),
        None => None,
    }
}

/// Calls `dirs::runtime_dir` (on Linux `$XDG_RUNTIME_DIR` when it is absolute), and
/// turns the path into a string, lossily (a byte sequence that is not UTF-8
/// becomes U+FFFD). What it returns rests on the environment,
/// so nothing is promised of it.
#[verifier::external_body]
fn platform_runtime_dir() -> Option<String> {
    match dirs::runtime_dir() {
        Some(p) => Some(p.to_string_lossy().into_owned()),
        None => None,
    }
}

/// Calls `dirs::home_dir` (on Linux `$HOME`, or the password database), and turns
/// the path into a string, lossily (a byte sequence that is not UTF-8 becomes
/// U+FFFD). What it returns rests on the environment, so
/// nothing is promised of it.
#[verifier::external_body]
pub(crate) fn platform_home_dir() -> Option<String> {
    match dirs::home_dir() {
        Some(p) => Some(p.to_string_lossy().into_owned()),
        None => None,
    }
}

fn dir_under(found: Option<String>, fallback: &str) -> (r: String)
    ensures
        r@ == join_spec(base_or(opt_view(found), fallback@), "typingsucks"@),
{
    match found {
        Some(b) => join_path(b.as_str(), "typingsucks"),
        None => join_path(fallback, "typingsucks"),
    }
}

/// The configuration directory for the platform's config directory `found`.
pub fn config_dir_from(found: Option<String>) -> (r: String)
    ensures
        r@ == config_dir_spec(opt_view(found)),
{
    dir_under(found, "~/.config")
}

/// The data directory for the platform's data directory `found`.
pub fn data_dir_from(found: Option<String>) -> (r: String)
    ensures
        r@ == data_dir_spec(opt_view(found)),
{
    dir_under(found, "~/.local/share")
}

/// The runtime directory for the platform's runtime directory `found`.
pub fn runtime_dir_from(found: Option<String>) -> (r: String)
    ensures
        r@ == runtime_dir_spec(opt_view(found)),
{
    dir_under(found, "/tmp")
}

/// Whether `found` is what `dirs::config_dir` gave (as a string), when asked.
pub closed spec fn platform_config_dir_gave(found: Option<Seq<char>>) -> bool {
    exists|o: Option<String>| opt_view(o) == found && call_ensures(platform_config_dir, (), o)
}

/// Whether `found` is what `dirs::data_dir` gave (as a string), when asked.
pub closed spec fn platform_data_dir_gave(found: Option<Seq<char>>) -> bool {
    exists|o: Option<String>| opt_view(o) == found && call_ensures(platform_data_dir, (), o)
}

/// Whether `found` is what `dirs::runtime_dir` gave (as a string), when asked.
pub closed spec fn platform_runtime_dir_gave(found: Option<Seq<char>>) -> bool {
    exists|o: Option<String>| opt_view(o) == found && call_ensures(platform_runtime_dir, (), o)
}

/// Whether `found` is what `dirs::home_dir` gave (as a string), when asked.
pub closed spec fn platform_home_dir_gave(found: Option<Seq<char>>) -> bool {
    exists|o: Option<String>| opt_view(o) == found && call_ensures(platform_home_dir, (), o)
}

/// Whether `dir` is the configuration directory for what the platform gave.
pub open spec fn is_config_dir(dir: Seq<char>) -> bool {
    exists|found: Option<Seq<char>>| platform_config_dir_gave(found) && dir == config_dir_spec(found)
}

/// Whether `dir` is the data directory for what the platform gave.
pub open spec fn is_data_dir(dir: Seq<char>) -> bool {
    exists|found: Option<Seq<char>>| platform_data_dir_gave(found) && dir == data_dir_spec(found)
}

/// Whether `dir` is the models directory (`models` in the data directory) for what
/// the platform gave.
pub open spec fn is_models_dir(dir: Seq<char>) -> bool {
    exists|found: Option<Seq<char>>|
        platform_data_dir_gave(found) && dir == join_spec(data_dir_spec(found), "models"@)
}

/// Whether `dir` is the runtime directory for what the platform gave.
pub open spec fn is_runtime_dir(dir: Seq<char>) -> bool {
    exists|found: Option<Seq<char>>| platform_runtime_dir_gave(found) && dir == runtime_dir_spec(found)
}

/// The user's home directory, as the platform gives it.
pub fn home_dir() -> (r: Option<String>)
    ensures
        platform_home_dir_gave(opt_view(r)),
{
    let ask = platform_home_dir;
    ask()
}

/// `typingsucks` under the user's config directory (or under `~/.config`).
pub fn config_dir() -> (r: String)
    ensures
        is_config_dir(r@),
{
    let ask = platform_config_dir;
    let found = ask();
    let r = config_dir_from(found);
    assert(platform_config_dir_gave(opt_view(found)));
    r
}

/// `config.toml` in the configuration directory.
pub fn config_path() -> (r: String)
    ensures
        exists|dir: Seq<char>| is_config_dir(dir) && r@ == join_spec(dir, "config.toml"@),
{
    let dir = config_dir();
    join_path(dir.as_str(), "config.toml")
}

/// `typingsucks` under the user's data directory (or under `~/.local/share`).
pub fn data_dir() -> (r: String)
    ensures
        is_data_dir(r@),
{
    let ask = platform_data_dir;
    let found = ask();
    let r = data_dir_from(found);
    assert(platform_data_dir_gave(opt_view(found)));
    r
}

/// `models` in the data directory.
pub fn models_dir() -> (r: String)
    ensures
        is_models_dir(r@),
{
    let dir = data_dir();
    let ghost found = choose|found: Option<Seq<char>>|
        platform_data_dir_gave(found) && dir@ == data_dir_spec(found);
    let r = join_path(dir.as_str(), "models");
    assert(platform_data_dir_gave(found) && r@ == join_spec(data_dir_spec(found), "models"@));
    r
}

/// `typingsucks` under the user's runtime directory (or under `/tmp`).
pub fn runtime_dir() -> (r: String)
    ensures
        is_runtime_dir(r@),
{
    let ask = platform_runtime_dir;
    let found = ask();
    let r = runtime_dir_from(found);
    assert(platform_runtime_dir_gave(opt_view(found)));
    r
}

} // verus!
