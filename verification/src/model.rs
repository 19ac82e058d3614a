use vstd::prelude::*;
use crate::config::{join_path, join_spec, models_dir, data_dir_spec, Config, home_dir, is_models_dir, platform_home_dir_gave};
use crate::disk::{disk_said_exists, disk_said_is_dir, disk_said_is_file, disk_said_len, probe_exists, probe_is_dir, probe_is_file, probe_len};
use crate::text::{str_eq, strings_view};
use vstd::string::StringExecFns;

verus! {

/// A whisper model that can be downloaded.
#[derive(Debug, Clone, Copy)]
pub struct ModelInfo {
    pub name: &'static str,
    pub filename: &'static str,
    pub url: &'static str,
    pub size_mb: u64,
}

impl View for ModelInfo {
    type V = (Seq<char>, Seq<char>, Seq<char>, u64);

    open spec fn view(&self) -> Self::V {
        (self.name@, self.filename@, self.url@, self.size_mb)
    }
}

/// The catalog entry with the given name, filename, download URL and size.
pub open spec fn entry(name: &str, filename: &str, url: &str, size_mb: u64) -> (
    Seq<char>,
    Seq<char>,
    Seq<char>,
    u64,
) {
    (name@, filename@, url@, size_mb)
}

/// The models that can be downloaded, smallest first.
pub open spec fn catalog() -> Seq<(Seq<char>, Seq<char>, Seq<char>, u64)> {
    seq![
        entry("tiny", "ggml-tiny.bin", "https://huggingface.co/ggerganov/whisper.cpp/resolve/main/ggml-tiny.bin", 75),
        entry("tiny.en", "ggml-tiny.en.bin", "https://huggingface.co/ggerganov/whisper.cpp/resolve/main/ggml-tiny.en.bin", 75),
        entry("base", "ggml-base.bin", "https://huggingface.co/ggerganov/whisper.cpp/resolve/main/ggml-base.bin", 142),
        entry("base.en", "ggml-base.en.bin", "https://huggingface.co/ggerganov/whisper.cpp/resolve/main/ggml-base.en.bin", 142),
        entry("small", "ggml-small.bin", "https://huggingface.co/ggerganov/whisper.cpp/resolve/main/ggml-small.bin", 466),
        entry("small.en", "ggml-small.en.bin", "https://huggingface.co/ggerganov/whisper.cpp/resolve/main/ggml-small.en.bin", 466),
        entry("medium", "ggml-medium.bin", "https://huggingface.co/ggerganov/whisper.cpp/resolve/main/ggml-medium.bin", 1500),
        entry("medium.en", "ggml-medium.en.bin", "https://huggingface.co/ggerganov/whisper.cpp/resolve/main/ggml-medium.en.bin", 1500),
        entry("large-v1", "ggml-large-v1.bin", "https://huggingface.co/ggerganov/whisper.cpp/resolve/main/ggml-large-v1.bin", 2900),
        entry("large-v2", "ggml-large-v2.bin", "https://huggingface.co/ggerganov/whisper.cpp/resolve/main/ggml-large-v2.bin", 2900),
        entry("large-v3", "ggml-large-v3.bin", "https://huggingface.co/ggerganov/whisper.cpp/resolve/main/ggml-large-v3.bin", 2900),
        entry("large-v3-turbo", "ggml-large-v3-turbo.bin", "https://huggingface.co/ggerganov/whisper.cpp/resolve/main/ggml-large-v3-turbo.bin", 1600),
    ]
}

/// The catalog of downloadable models, in the order of `catalog()`.
pub fn models() -> (r: Vec<ModelInfo>)
    ensures
        r@.map_values(|m: ModelInfo| m@) == catalog(),
{
    let r = vec![
        ModelInfo { name: "tiny", filename: "ggml-tiny.bin", url: "https://huggingface.co/ggerganov/whisper.cpp/resolve/main/ggml-tiny.bin", size_mb: 75 },
        ModelInfo { name: "tiny.en", filename: "ggml-tiny.en.bin", url: "https://huggingface.co/ggerganov/whisper.cpp/resolve/main/ggml-tiny.en.bin", size_mb: 75 },
        ModelInfo { name: "base", filename: "ggml-base.bin", url: "https://huggingface.co/ggerganov/whisper.cpp/resolve/main/ggml-base.bin", size_mb: 142 },
        ModelInfo { name: "base.en", filename: "ggml-base.en.bin", url: "https://huggingface.co/ggerganov/whisper.cpp/resolve/main/ggml-base.en.bin", size_mb: 142 },
        ModelInfo { name: "small", filename: "ggml-small.bin", url: "https://huggingface.co/ggerganov/whisper.cpp/resolve/main/ggml-small.bin", size_mb: 466 },
        ModelInfo { name: "small.en", filename: "ggml-small.en.bin", url: "https://huggingface.co/ggerganov/whisper.cpp/resolve/main/ggml-small.en.bin", size_mb: 466 },
        ModelInfo { name: "medium", filename: "ggml-medium.bin", url: "https://huggingface.co/ggerganov/whisper.cpp/resolve/main/ggml-medium.bin", size_mb: 1500 },
        ModelInfo { name: "medium.en", filename: "ggml-medium.en.bin", url: "https://huggingface.co/ggerganov/whisper.cpp/resolve/main/ggml-medium.en.bin", size_mb: 1500 },
        ModelInfo { name: "large-v1", filename: "ggml-large-v1.bin", url: "https://huggingface.co/ggerganov/whisper.cpp/resolve/main/ggml-large-v1.bin", size_mb: 2900 },
        ModelInfo { name: "large-v2", filename: "ggml-large-v2.bin", url: "https://huggingface.co/ggerganov/whisper.cpp/resolve/main/ggml-large-v2.bin", size_mb: 2900 },
        ModelInfo { name: "large-v3", filename: "ggml-large-v3.bin", url: "https://huggingface.co/ggerganov/whisper.cpp/resolve/main/ggml-large-v3.bin", size_mb: 2900 },
        ModelInfo { name: "large-v3-turbo", filename: "ggml-large-v3-turbo.bin", url: "https://huggingface.co/ggerganov/whisper.cpp/resolve/main/ggml-large-v3-turbo.bin", size_mb: 1600 },
    ];
    assert(r@.map_values(|m: ModelInfo| m@) =~= catalog());
    r
}


/// The first entry of `entries` with the given name.
pub open spec fn find_in(entries: Seq<(Seq<char>, Seq<char>, Seq<char>, u64)>, name: Seq<char>) -> Option<
    (Seq<char>, Seq<char>, Seq<char>, u64),
>
    decreases entries.len(),
{
    if entries.len() == 0 {
        None
    } else if entries[0].0 == name {
        Some(entries[0])
    } else {
        find_in(entries.drop_first(), name)
    }
}

/// The view of an optional catalog entry.
pub open spec fn opt_info_view(o: Option<ModelInfo>) -> Option<(Seq<char>, Seq<char>, Seq<char>, u64)> {
    match o {
        Some(m) => Some(m@),
        None => None,
    }
}

/// The catalog entry named `name`, if there is one.
pub fn find_model(name: &str) -> (r: Option<ModelInfo>)
    ensures
        opt_info_view(r) == find_in(catalog(), name@),
{
    let all = models();
    let ghost cat = catalog();
    let mut i: usize = 0;
    assert(cat.skip(0) =~= cat);
    while i < all.len()
        invariant
            i <= all.len(),
            all@.map_values(|m: ModelInfo| m@) == cat,
            cat == catalog(),
            find_in(cat, name@) == find_in(cat.skip(i as int), name@),
        decreases all.len() - i,
    {
        let m = all[i];
        assert(cat.skip(i as int)[0] == m@);
        assert(cat.skip(i as int).drop_first() =~= cat.skip(i + 1));
        if str_eq(m.name, name) {
            return Some(m);
        }
        i = i + 1;
    }
    assert(cat.skip(i as int).len() == 0);
    None
}


/// Where the catalog model named `name` is kept: its entry and its file in `dir`;
/// `None` for a name that is not in the catalog.
pub fn model_destination(name: &str, dir: &str) -> (r: Option<(ModelInfo, String)>)
    ensures
        match find_in(catalog(), name@) {
            Some(info) => r matches Some((m, p)) && m@ == info && p@ == join_spec(dir@, info.1),
            None => r is None,
        },
{
    match find_model(name) {
        Some(m) => Some((m, join_path(dir, m.filename))),
        None => None,
    }
}

/// The model files looked for in the models directory, most preferred first.
pub open spec fn preferred_files() -> Seq<Seq<char>> {
    seq![
        "ggml-large-v3-turbo.bin"@,
        "ggml-large-v3.bin"@,
        "ggml-large-v2.bin"@,
        "ggml-large-v1.bin"@,
        "ggml-medium.en.bin"@,
        "ggml-medium.bin"@,
        "ggml-small.en.bin"@,
        "ggml-small.bin"@,
        "ggml-base.en.bin"@,
        "ggml-base.bin"@,
        "ggml-tiny.en.bin"@,
        "ggml-tiny.bin"@,
    ]
}

/// The model files looked for in the models directory, most preferred first.
pub fn preferred_model_files() -> (r: Vec<&'static str>)
    ensures
        r@.map_values(|s: &'static str| s@) == preferred_files(),
{
    let r = vec![
        "ggml-large-v3-turbo.bin",
        "ggml-large-v3.bin",
        "ggml-large-v2.bin",
        "ggml-large-v1.bin",
        "ggml-medium.en.bin",
        "ggml-medium.bin",
        "ggml-small.en.bin",
        "ggml-small.bin",
        "ggml-base.en.bin",
        "ggml-base.bin",
        "ggml-tiny.en.bin",
        "ggml-tiny.bin",
    ];
    assert(r@.map_values(|s: &'static str| s@) =~= preferred_files());
    r
}

/// The first position of `flags` that holds `true`.
pub open spec fn first_true(flags: Seq<bool>) -> Option<int>
    decreases flags.len(),
{
    if flags.len() == 0 {
        None
    } else if flags[0] {
        Some(0)
    } else {
        match first_true(flags.drop_first()) {
            Some(i) => Some(i + 1),
            None => None,
        }
    }
}

proof fn lemma_first_true_bounds(flags: Seq<bool>)
    ensures
        first_true(flags) matches Some(i) ==> 0 <= i < flags.len() && flags[i] && forall|j: int|
            0 <= j < i ==> !#[trigger] flags[j],
        first_true(flags) is None ==> forall|j: int| 0 <= j < flags.len() ==> !#[trigger] flags[j],
    decreases flags.len(),
{
    if flags.len() > 0 {
        lemma_first_true_bounds(flags.drop_first());
        if !flags[0] {
            assert forall|j: int| 1 <= j < flags.len() implies flags[j] == flags.drop_first()[j
                - 1] by {}
        }
    }
}

/// Why no model file could be chosen.
#[derive(Debug, Clone)]
pub enum ModelPathError {
    /// The configured model path names nothing on disk.
    ConfiguredMissing(String),
    /// No model path is configured and the models directory holds none of the files.
    NotFound,
}

impl ModelPathError {
    /// The error as a value: the missing configured path, or `None` when no model
    /// was found.
    pub open spec fn view_err(&self) -> Option<Seq<char>> {
        match self {
            ModelPathError::ConfiguredMissing(p) => Some(p@),
            ModelPathError::NotFound => None,
        }
    }

    /// The message shown for the error.
    pub open spec fn message_spec(&self) -> Seq<char> {
        match self {
            ModelPathError::ConfiguredMissing(p) => "Configured model path does not exist: "@ + p@,
            ModelPathError::NotFound => "No whisper model found. Download one first:\n  typingsucks model download base"@,
        }
    }

    pub fn message(&self) -> (r: String)
        ensures
            r@ == self.message_spec(),
    {
        match self {
            ModelPathError::ConfiguredMissing(p) => {
                let mut m = "Configured model path does not exist: ".to_owned();
                m.append(p.as_str());
                m
            },
            ModelPathError::NotFound => {
                "No whisper model found. Download one first:\n  typingsucks model download base".to_owned()
            },
        }
    }
}

/// The view of a model-path answer.
pub open spec fn path_result_view(r: Result<String, ModelPathError>) -> Result<Seq<char>, Option<Seq<char>>> {
    match r {
        Ok(p) => Ok(p@),
        Err(e) => Err(e.view_err()),
    }
}

/// The model file to load: the configured path if one is configured (an error if it
/// does not exist); otherwise the most preferred file present in `dir`, where
/// `present[i]` tells whether the `i`-th preferred file exists there.
pub open spec fn resolve_spec(
    configured: Seq<char>,
    configured_exists: bool,
    dir: Seq<char>,
    present: Seq<bool>,
) -> Result<Seq<char>, Option<Seq<char>>> {
    if configured.len() > 0 {
        if configured_exists {
            Ok(configured)
        } else {
            Err(Some(configured))
        }
    } else {
        match first_true(present) {
            Some(i) => Ok(join_spec(dir, preferred_files()[i])),
            None => Err(None),
        }
    }
}

/// The model file to load, given what the disk says: whether the configured path
/// exists, and which preferred files the models directory `dir` holds.
pub fn choose_model_path(
    configured: &str,
    configured_exists: bool,
    dir: &str,
    present: &Vec<bool>,
) -> (r: Result<String, ModelPathError>)
    requires
        present.len() == preferred_files().len(),
    ensures
        path_result_view(r) == resolve_spec(configured@, configured_exists, dir@, present@),
{
    if !configured.is_empty() {
        if configured_exists {
            return Ok(configured.to_owned());
        } else {
            return Err(ModelPathError::ConfiguredMissing(configured.to_owned()));
        }
    }
    let files = preferred_model_files();
    let mut i: usize = 0;
    while i < present.len()
        invariant
            i <= present.len() == files.len(),
            configured@.len() == 0,
            files@.map_values(|s: &'static str| s@) == preferred_files(),
            forall|j: int| 0 <= j < i ==> !#[trigger] present@[j],
        decreases present.len() - i,
    {
        if present[i] {
            proof {
                lemma_first_true_bounds(present@);
                let k = first_true(present@)->0;
                if k < i {
                    assert(!present@[k]);
                }
                if k > i {
                    assert(!present@[i as int]);
                }
                assert(k == i);
                assert(files@.map_values(|s: &'static str| s@)[i as int] == files@[i as int]@);
                assert(preferred_files()[i as int] == files@[i as int]@);
            }
            return Ok(join_path(dir, files[i]));
        }
        i = i + 1;
    }
    proof {
        lemma_first_true_bounds(present@);
    }
    Err(ModelPathError::NotFound)
}


/// Whether the disk answers `configured_exists` and `present` came from asking about
/// the right paths: about the configured `path` where one is configured; otherwise,
/// in `dir` (the models directory), about each preferred file in turn.
pub open spec fn model_path_probed(
    path: Seq<char>,
    configured_exists: bool,
    dir: Seq<char>,
    present: Seq<bool>,
) -> bool {
    &&& present.len() == preferred_files().len()
    &&& path.len() > 0 ==> disk_said_exists(path, configured_exists)
    &&& path.len() == 0 ==> is_models_dir(dir) && forall|i: int|
        0 <= i < preferred_files().len() ==> disk_said_exists(
            join_spec(dir, preferred_files()[i]),
            #[trigger] present[i],
        )
}

/// The model file to load for `cfg`: its configured model path if it has one (an
/// error when nothing exists there); otherwise the most preferred model file present
/// in the models directory (an error when there is none).
pub fn resolve_model_path(cfg: &Config) -> (r: Result<String, ModelPathError>)
    ensures
        exists|configured_exists: bool, dir: Seq<char>, present: Seq<bool>|
            model_path_probed(cfg.model.path@, configured_exists, dir, present)
                && path_result_view(r) == resolve_spec(
                cfg.model.path@,
                configured_exists,
                dir,
                present,
            ),
        cfg.model.path@.len() > 0 ==> match r {
            Ok(p) => p@ == cfg.model.path@ && disk_said_exists(p@, true),
            Err(e) => e.view_err() == Some(cfg.model.path@) && disk_said_exists(
                cfg.model.path@,
                false,
            ),
        },
        cfg.model.path@.len() == 0 ==> exists|dir: Seq<char>|
            is_models_dir(dir) && match r {
                Ok(p) => exists|i: int|
                    0 <= i < preferred_files().len() && p@ == join_spec(dir, preferred_files()[i])
                        && disk_said_exists(p@, true) && forall|j: int|
                        0 <= j < i ==> disk_said_exists(
                            join_spec(dir, #[trigger] preferred_files()[j]),
                            false,
                        ),
                Err(e) => e.view_err() is None && forall|j: int|
                    0 <= j < preferred_files().len() ==> disk_said_exists(
                        join_spec(dir, #[trigger] preferred_files()[j]),
                        false,
                    ),
            },
{
    if !cfg.model.path.as_str().is_empty() {
        let exists = probe_exists(cfg.model.path.as_str());
        let r = if exists {
            Ok(cfg.model.path.clone())
        } else {
            Err(ModelPathError::ConfiguredMissing(cfg.model.path.clone()))
        };
        let ghost none = Seq::new(12, |i: int| false);
        assert(model_path_probed(cfg.model.path@, exists, Seq::empty(), none));
        assert(path_result_view(r) == resolve_spec(cfg.model.path@, exists, Seq::empty(), none));
        return r;
    }
    let dir = models_dir();
    let files = preferred_model_files();
    let mut present: Vec<bool> = Vec::new();
    let mut i: usize = 0;
    while i < files.len()
        invariant
            i <= files.len(),
            files@.map_values(|s: &'static str| s@) == preferred_files(),
            present.len() == i,
            forall|j: int|
                0 <= j < i ==> disk_said_exists(
                    join_spec(dir@, preferred_files()[j]),
                    #[trigger] present@[j],
                ),
        decreases files.len() - i,
    {
        let p = join_path(dir.as_str(), files[i]);
        assert(files@.map_values(|s: &'static str| s@)[i as int] == files@[i as int]@);
        let answer = probe_exists(p.as_str());
        present.push(answer);
        i = i + 1;
    }
    let r = choose_model_path(cfg.model.path.as_str(), false, dir.as_str(), &present);
    proof {
        assert(model_path_probed(cfg.model.path@, false, dir@, present@));
        lemma_first_true_bounds(present@);
        match first_true(present@) {
            Some(k) => {
                assert(forall|j: int| 0 <= j < k ==> !present@[j]);
                assert(disk_said_exists(join_spec(dir@, preferred_files()[k]), present@[k]));
                assert(path_result_view(r) == Ok::<Seq<char>, Option<Seq<char>>>(join_spec(dir@, preferred_files()[k])));
                let p = r->Ok_0;
                assert(p@ == join_spec(dir@, preferred_files()[k]));
                assert forall|j: int| 0 <= j < k implies disk_said_exists(
                    join_spec(dir@, #[trigger] preferred_files()[j]),
                    false,
                ) by {
                    assert(!present@[j]);
                    assert(disk_said_exists(join_spec(dir@, preferred_files()[j]), present@[j]));
                }
                assert(is_models_dir(dir@));
            },
            None => {
                assert forall|j: int| 0 <= j < preferred_files().len() implies disk_said_exists(
                    join_spec(dir@, #[trigger] preferred_files()[j]),
                    false,
                ) by {
                    assert(!present@[j]);
                }
            },
        }
    }
    r
}

/// The names of the first `n` catalog entries whose flag in `present` is set, in
/// catalog order.
pub open spec fn names_where(
    entries: Seq<(Seq<char>, Seq<char>, Seq<char>, u64)>,
    present: Seq<bool>,
    n: nat,
) -> Seq<Seq<char>>
    decreases n,
{
    if n == 0 {
        Seq::empty()
    } else {
        let rest = names_where(entries, present, (n - 1) as nat);
        if present[n - 1] {
            rest.push(entries[n - 1].0)
        } else {
            rest
        }
    }
}

/// The names of the catalog models whose files are present, where `present[i]` tells
/// whether the `i`-th catalog model's file exists.
pub fn downloaded_names(present: &Vec<bool>) -> (r: Vec<String>)
    requires
        present.len() == catalog().len(),
    ensures
        strings_view(r@) == names_where(catalog(), present@, catalog().len()),
{
    let all = models();
    let mut r: Vec<String> = Vec::new();
    let mut i: usize = 0;
    while i < all.len()
        invariant
            i <= all.len() == present.len(),
            all@.map_values(|m: ModelInfo| m@) == catalog(),
            strings_view(r@) == names_where(catalog(), present@, i as nat),
        decreases all.len() - i,
    {
        assert(all@.map_values(|m: ModelInfo| m@)[i as int] == all@[i as int]@);
        if present[i] {
            r.push(all[i].name.to_owned());
        }
        assert(strings_view(r@) =~= names_where(catalog(), present@, (i + 1) as nat));
        i = i + 1;
    }
    r
}

proof fn lemma_names_where(
    entries: Seq<(Seq<char>, Seq<char>, Seq<char>, u64)>,
    present: Seq<bool>,
    n: nat,
)
    requires
        n <= entries.len(),
        n <= present.len(),
    ensures
        forall|k: int| 0 <= k < n && #[trigger] present[k] ==> names_where(entries, present, n).contains(
            entries[k].0,
        ),
        forall|x: Seq<char>|
            #[trigger] names_where(entries, present, n).contains(x) ==> exists|k: int|
                0 <= k < n && present[k] && x == entries[k].0,
    decreases n,
{
    if n > 0 {
        lemma_names_where(entries, present, (n - 1) as nat);
        let rest = names_where(entries, present, (n - 1) as nat);
        assert forall|k: int| 0 <= k < n && #[trigger] present[k] implies names_where(
            entries,
            present,
            n,
        ).contains(entries[k].0) by {
            if k < n - 1 {
                let w = choose|w: int| 0 <= w < rest.len() && rest[w] == entries[k].0;
                if present[n - 1] {
                    assert(rest.push(entries[n - 1].0)[w] == entries[k].0);
                }
            } else {
                assert(rest.push(entries[n - 1].0)[rest.len() as int] == entries[k].0);
            }
        }
        assert forall|x: Seq<char>| #[trigger] names_where(entries, present, n).contains(x) implies exists|
            k: int,
        | 0 <= k < n && present[k] && x == entries[k].0 by {
            let all = names_where(entries, present, n);
            let w = choose|w: int| 0 <= w < all.len() && all[w] == x;
            if present[n - 1] && w == rest.len() {
                assert(x == entries[n - 1].0);
            } else {
                assert(rest[w] == x);
                assert(rest.contains(x));
            }
        }
    }
}

/// The names of the catalog models whose files are in the models directory (e.g.
/// `["base.en", "tiny"]`), in catalog order: a model is listed exactly when the disk
/// said that its file (not its name) exists in the models directory.
pub fn list_downloaded() -> (r: Vec<String>)
    ensures
        exists|dir: Seq<char>, present: Seq<bool>|
            {
                &&& is_models_dir(dir)
                &&& present.len() == catalog().len()
                &&& forall|k: int|
                    0 <= k < catalog().len() ==> disk_said_exists(
                        join_spec(dir, catalog()[k].1),
                        #[trigger] present[k],
                    )
                &&& strings_view(r@) == names_where(catalog(), present, catalog().len())
                &&& forall|k: int|
                    0 <= k < catalog().len() && #[trigger] present[k] ==> strings_view(r@).contains(
                        catalog()[k].0,
                    )
                &&& forall|x: Seq<char>|
                    #[trigger] strings_view(r@).contains(x) ==> exists|k: int|
                        0 <= k < catalog().len() && present[k] && x == catalog()[k].0
                        && disk_said_exists(join_spec(dir, catalog()[k].1), true)
            },
{
    let dir = models_dir();
    let all = models();
    let mut present: Vec<bool> = Vec::new();
    let mut i: usize = 0;
    while i < all.len()
        invariant
            i <= all.len(),
            all@.map_values(|m: ModelInfo| m@) == catalog(),
            present.len() == i,
            forall|k: int|
                0 <= k < i ==> disk_said_exists(
                    join_spec(dir@, catalog()[k].1),
                    #[trigger] present@[k],
                ),
        decreases all.len() - i,
    {
        assert(all@.map_values(|m: ModelInfo| m@)[i as int] == all@[i as int]@);
        let p = join_path(dir.as_str(), all[i].filename);
        let answer = probe_exists(p.as_str());
        present.push(answer);
        i = i + 1;
    }
    let r = downloaded_names(&present);
    proof {
        lemma_names_where(catalog(), present@, catalog().len());
        assert forall|x: Seq<char>| #[trigger] strings_view(r@).contains(x) implies exists|k: int|
            0 <= k < catalog().len() && present@[k] && x == catalog()[k].0 && disk_said_exists(
                join_spec(dir@, catalog()[k].1),
                true,
            ) by {
            let k = choose|k: int| 0 <= k < catalog().len() && present@[k] && x == catalog()[k].0;
            assert(disk_said_exists(join_spec(dir@, catalog()[k].1), present@[k]));
        }
    }
    r
}


/// The smallest file that counts as a real model (50 MiB); the smallest real model,
/// ggml-tiny.bin, is about 75 MB, so this leaves out test stubs.
pub const MIN_MODEL_SIZE: u64 = 50 * 1024 * 1024;

/// A model file found outside the models directory.
#[derive(Debug, Clone)]
pub struct ScannedModel {
    pub name: String,
    pub path: String,
    pub size_mb: u64,
}

/// The directories, under the home directory, where whisper models are often kept.
pub open spec fn scan_subdirs() -> Seq<Seq<char>> {
    seq!["whisper.cpp/models"@, ".cache/whisper"@, ".cache/whisper-cpp"@]
}

/// The directories to scan, given the home directory, if any.
pub open spec fn scan_dirs_spec(home: Option<Seq<char>>) -> Seq<Seq<char>> {
    match home {
        Some(h) => scan_subdirs().map_values(|d: Seq<char>| join_spec(h, d)),
        None => Seq::empty(),
    }
}

/// The directories to scan for existing models, given the home directory.
pub fn scan_dirs_from(home: Option<String>) -> (r: Vec<String>)
    ensures
        strings_view(r@) == scan_dirs_spec(crate::config::opt_view(home)),
{
    let mut dirs: Vec<String> = Vec::new();
    if let Some(h) = home {
        dirs.push(join_path(h.as_str(), "whisper.cpp/models"));
        dirs.push(join_path(h.as_str(), ".cache/whisper"));
        dirs.push(join_path(h.as_str(), ".cache/whisper-cpp"));
        assert(strings_view(dirs@) =~= scan_dirs_spec(crate::config::opt_view(Some(h))));
    } else {
        assert(strings_view(dirs@) =~= Seq::<Seq<char>>::empty());
    }
    dirs
}

/// The scan's verdict on a model file of `len` bytes (`None`: unreadable): it is
/// listed when it is at least `MIN_MODEL_SIZE` long, with its size in whole MiB.
pub open spec fn accept_spec(len: Option<u64>) -> Option<u64> {
    match len {
        Some(l) => if l >= MIN_MODEL_SIZE {
            Some(l / 1048576u64)
        } else {
            None
        },
        None => None,
    }
}

/// The listing of the model `name` found at `path` with `len` bytes, if it passes the
/// size check.
pub fn scanned_model(name: &str, path: &str, len: Option<u64>) -> (r: Option<ScannedModel>)
    ensures
        match accept_spec(len) {
            Some(mb) => r matches Some(m) && m.name@ == name@ && m.path@ == path@ && m.size_mb
                == mb,
            None => r is None,
        },
{
    match len {
        Some(l) => {
            if l >= MIN_MODEL_SIZE {
                Some(ScannedModel { name: name.to_owned(), path: path.to_owned(), size_mb: l / (1024 * 1024) })
            } else {
                None
            }
        },
        None => None,
    }
}

impl View for ScannedModel {
    type V = (Seq<char>, Seq<char>, u64);

    open spec fn view(&self) -> Self::V {
        (self.name@, self.path@, self.size_mb)
    }
}

/// The views of a sequence of listings.
pub open spec fn scanned_view(found: Seq<ScannedModel>) -> Seq<(Seq<char>, Seq<char>, u64)> {
    found.map_values(|m: ScannedModel| m@)
}

/// What the disk says of one catalog model in one scanned directory: `None` where the
/// model is passed over (the directory is missing, the file is not a regular file
/// there, or the model is already in the models directory); otherwise the file's
/// length in bytes, `None` inside where its metadata cannot be read.
pub type ScanProbe = Option<Option<u64>>;

/// The listing owed for the `k`-th catalog model in directory `dir`, given its probe.
pub open spec fn scan_entry(dir: Seq<char>, k: int, probe: ScanProbe) -> Seq<
    (Seq<char>, Seq<char>, u64),
> {
    match probe {
        Some(len) => match accept_spec(len) {
            Some(mb) => seq![(catalog()[k].0, join_spec(dir, catalog()[k].1), mb)],
            None => Seq::empty(),
        },
        None => Seq::empty(),
    }
}

/// The listings owed for the first `n` catalog models in directory `dir`.
pub open spec fn scan_dir_spec(dir: Seq<char>, probes: Seq<ScanProbe>, n: nat) -> Seq<
    (Seq<char>, Seq<char>, u64),
>
    decreases n,
{
    if n == 0 {
        Seq::empty()
    } else {
        scan_dir_spec(dir, probes, (n - 1) as nat) + scan_entry(dir, n - 1, probes[n - 1])
    }
}

/// The listings owed for the first `n` scanned directories, directory by directory and
/// in catalog order within each.
pub open spec fn scan_all_spec(dirs: Seq<Seq<char>>, probes: Seq<Seq<ScanProbe>>, n: nat) -> Seq<
    (Seq<char>, Seq<char>, u64),
>
    decreases n,
{
    if n == 0 {
        Seq::empty()
    } else {
        scan_all_spec(dirs, probes, (n - 1) as nat) + scan_dir_spec(
            dirs[n - 1],
            probes[n - 1],
            catalog().len(),
        )
    }
}

/// The probes as plain values.
pub open spec fn probes_view(probes: Seq<Vec<ScanProbe>>) -> Seq<Seq<ScanProbe>> {
    probes.map_values(|p: Vec<ScanProbe>| p@)
}

/// The listings for the directories `dirs`, given for each directory one probe per
/// catalog model: a model is listed where its probe gives a length of at least
/// `MIN_MODEL_SIZE`, with its path in that directory and its size in whole MiB.
pub fn scanned_models(dirs: &Vec<String>, probes: &Vec<Vec<ScanProbe>>) -> (r: Vec<ScannedModel>)
    requires
        probes.len() == dirs.len(),
        forall|d: int| 0 <= d < probes.len() ==> #[trigger] probes@[d].len() == catalog().len(),
    ensures
        scanned_view(r@) == scan_all_spec(strings_view(dirs@), probes_view(probes@), dirs.len() as nat),
{
    let all = models();
    let mut found: Vec<ScannedModel> = Vec::new();
    let ghost dv = strings_view(dirs@);
    let ghost pv = probes_view(probes@);
    let mut d: usize = 0;
    while d < dirs.len()
        invariant
            d <= dirs.len() == probes.len(),
            dv == strings_view(dirs@),
            pv == probes_view(probes@),
            forall|e: int| 0 <= e < probes.len() ==> #[trigger] probes@[e].len() == catalog().len(),
            all@.map_values(|m: ModelInfo| m@) == catalog(),
            scanned_view(found@) == scan_all_spec(dv, pv, d as nat),
        decreases dirs.len() - d,
    {
        let ghost before = scanned_view(found@);
        assert(pv[d as int] == probes@[d as int]@);
        assert(dv[d as int] == dirs@[d as int]@);
        let mut k: usize = 0;
        while k < all.len()
            invariant
                d < dirs.len() == probes.len(),
                k <= all.len() == catalog().len() == probes@[d as int].len(),
                dv == strings_view(dirs@),
                pv == probes_view(probes@),
                pv[d as int] == probes@[d as int]@,
                dv[d as int] == dirs@[d as int]@,
                all@.map_values(|m: ModelInfo| m@) == catalog(),
                before == scan_all_spec(dv, pv, d as nat),
                scanned_view(found@) == before + scan_dir_spec(dv[d as int], pv[d as int], k as nat),
            decreases all.len() - k,
        {
            let m = all[k];
            assert(all@.map_values(|m: ModelInfo| m@)[k as int] == all@[k as int]@);
            let ghost prev = scanned_view(found@);
            let probe = probes[d][k];
            if let Some(len) = probe {
                let path = join_path(dirs[d].as_str(), m.filename);
                if let Some(hit) = scanned_model(m.name, path.as_str(), len) {
                    found.push(hit);
                    assert(scanned_view(found@) =~= prev.push(hit@));
                }
            }
            assert(scanned_view(found@) =~= before + scan_dir_spec(
                dv[d as int],
                pv[d as int],
                (k + 1) as nat,
            ));
            k = k + 1;
        }
        assert(scanned_view(found@) =~= scan_all_spec(dv, pv, (d + 1) as nat));
        d = d + 1;
    }
    found
}

/// The probe for one catalog model in one scanned directory, from what the disk says:
/// whether the directory is a directory, whether the model's file there is a regular
/// file, whether the model is already in the models directory, and the file's length
/// (`None`: unreadable). The model is passed over unless the directory and the file
/// are there and the model is not in the models directory yet.
pub open spec fn scan_probe_spec(is_dir: bool, is_file: bool, dest_exists: bool, len: Option<u64>) -> ScanProbe {
    if is_dir && is_file && !dest_exists {
        Some(len)
    } else {
        None
    }
}

/// The probe for one catalog model in one scanned directory (see `scan_probe_spec`).
pub fn scan_probe(is_dir: bool, is_file: bool, dest_exists: bool, len: Option<u64>) -> (r: ScanProbe)
    ensures
        r == scan_probe_spec(is_dir, is_file, dest_exists, len),
{
    if is_dir && is_file && !dest_exists {
        Some(len)
    } else {
        None
    }
}

/// The probes for the scanned directories, from what the disk says of each
/// (`dir_ok[d]`: the `d`-th is a directory) and of each catalog model in it
/// (`answers[d][k]`: its file is a regular file, it is already in the models
/// directory, the file's length).
pub open spec fn probes_from(dir_ok: Seq<bool>, answers: Seq<Seq<(bool, bool, Option<u64>)>>) -> Seq<
    Seq<ScanProbe>,
> {
    Seq::new(
        dir_ok.len(),
        |d: int|
            Seq::new(
                answers[d].len(),
                |k: int| scan_probe_spec(dir_ok[d], answers[d][k].0, answers[d][k].1, answers[d][k].2),
            ),
    )
}

/// Whether the disk's answers cover `n` directories, each with one answer per
/// catalog model.
pub open spec fn answers_fit(dir_ok: Seq<bool>, answers: Seq<Seq<(bool, bool, Option<u64>)>>, n: nat) -> bool {
    &&& dir_ok.len() == n
    &&& answers.len() == n
    &&& forall|d: int| 0 <= d < n ==> (#[trigger] answers[d]).len() == catalog().len()
}

/// Whether the disk answers `a` (is a regular file, is already imported, length) for
/// the `k`-th catalog model in the scanned directory `dir` came from asking about the
/// right paths, each only where the scan goes on to ask: the model's file in `dir`,
/// then the model's file in the models directory `dest`, then again the file in `dir`.
pub open spec fn answer_probed(
    dir: Seq<char>,
    dest: Seq<char>,
    k: int,
    is_dir: bool,
    a: (bool, bool, Option<u64>),
) -> bool {
    &&& is_dir ==> disk_said_is_file(join_spec(dir, catalog()[k].1), a.0)
    &&& is_dir && a.0 ==> disk_said_exists(join_spec(dest, catalog()[k].1), a.1)
    &&& is_dir && a.0 && !a.1 ==> disk_said_len(join_spec(dir, catalog()[k].1), a.2)
}

/// Whether the scan's answers came from the platform and the disk: `home` is the home
/// directory the platform gave, `dest` the models directory, `dir_ok[d]` what the disk
/// said of whether the `d`-th scanned directory is a directory, and `answers[d][k]`
/// what it said of the `k`-th catalog model there (see `answer_probed`).
pub open spec fn scan_probed(
    home: Option<Seq<char>>,
    dest: Seq<char>,
    dir_ok: Seq<bool>,
    answers: Seq<Seq<(bool, bool, Option<u64>)>>,
) -> bool {
    let dirs = scan_dirs_spec(home);
    &&& platform_home_dir_gave(home)
    &&& is_models_dir(dest)
    &&& answers_fit(dir_ok, answers, dirs.len())
    &&& forall|d: int| 0 <= d < dirs.len() ==> disk_said_is_dir(dirs[d], #[trigger] dir_ok[d])
    &&& forall|d: int, k: int|
        0 <= d < dirs.len() && 0 <= k < catalog().len() ==> answer_probed(
            dirs[d],
            dest,
            k,
            dir_ok[d],
            #[trigger] answers[d][k],
        )
}

/// Whether the listing `m` is the `k`-th catalog model found in the scanned directory
/// `dir`: the disk said `dir` is a directory and the model's file there is a regular
/// file of `l` bytes, at least 50 MiB (its size in whole MiB), and said the model's
/// file is not in the models directory `dest`.
pub open spec fn listing_found(m: ScannedModel, dir: Seq<char>, dest: Seq<char>, k: int, l: u64) -> bool {
    &&& m.name@ == catalog()[k].0
    &&& m.path@ == join_spec(dir, catalog()[k].1)
    &&& disk_said_is_dir(dir, true)
    &&& disk_said_is_file(m.path@, true)
    &&& disk_said_exists(join_spec(dest, catalog()[k].1), false)
    &&& disk_said_len(m.path@, Some(l))
    &&& l >= MIN_MODEL_SIZE
    &&& m.size_mb == l / 1048576u64
}

/// Whether the listing `m` is some catalog model found in one of the scanned
/// directories `dirs` (see `listing_found`).
pub open spec fn found_in_scan(m: ScannedModel, dirs: Seq<Seq<char>>, dest: Seq<char>) -> bool {
    exists|d: int, k: int, l: u64|
        0 <= d < dirs.len() && 0 <= k < catalog().len() && #[trigger] listing_found(
            m,
            dirs[d],
            dest,
            k,
            l,
        )
}

proof fn lemma_scan_dir_members(dir: Seq<char>, probes: Seq<ScanProbe>, n: nat, x: (Seq<char>, Seq<char>, u64))
    requires
        n <= catalog().len(),
        scan_dir_spec(dir, probes, n).contains(x),
    ensures
        exists|k: int, l: u64|
            0 <= k < n && probes[k] == Some(Some(l)) && l >= MIN_MODEL_SIZE && x == (
                catalog()[k].0,
                join_spec(dir, catalog()[k].1),
                l / 1048576u64,
            ),
    decreases n,
{
    let rest = scan_dir_spec(dir, probes, (n - 1) as nat);
    let e = scan_entry(dir, n - 1, probes[n - 1]);
    let all = rest + e;
    let w = choose|w: int| 0 <= w < all.len() && all[w] == x;
    if w < rest.len() {
        assert(rest[w] == x);
        lemma_scan_dir_members(dir, probes, (n - 1) as nat, x);
    } else {
        assert(e[w - rest.len()] == x);
        let l = probes[n - 1]->0->0;
        assert(probes[n - 1] == Some(Some(l)));
    }
}

proof fn lemma_scan_all_members(
    dirs: Seq<Seq<char>>,
    probes: Seq<Seq<ScanProbe>>,
    n: nat,
    x: (Seq<char>, Seq<char>, u64),
)
    requires
        scan_all_spec(dirs, probes, n).contains(x),
    ensures
        exists|d: int, k: int, l: u64|
            0 <= d < n && 0 <= k < catalog().len() && probes[d][k] == Some(Some(l)) && l
                >= MIN_MODEL_SIZE && x == (
                catalog()[k].0,
                join_spec(dirs[d], catalog()[k].1),
                l / 1048576u64,
            ),
    decreases n,
{
    let rest = scan_all_spec(dirs, probes, (n - 1) as nat);
    let e = scan_dir_spec(dirs[n - 1], probes[n - 1], catalog().len());
    let all = rest + e;
    let w = choose|w: int| 0 <= w < all.len() && all[w] == x;
    if w < rest.len() {
        assert(rest[w] == x);
        lemma_scan_all_members(dirs, probes, (n - 1) as nat, x);
    } else {
        assert(e[w - rest.len()] == x);
        lemma_scan_dir_members(dirs[n - 1], probes[n - 1], catalog().len(), x);
    }
}

proof fn lemma_scan_listings_found(
    found: Seq<ScannedModel>,
    dirs: Seq<Seq<char>>,
    dest: Seq<char>,
    dir_ok: Seq<bool>,
    answers: Seq<Seq<(bool, bool, Option<u64>)>>,
)
    requires
        answers_fit(dir_ok, answers, dirs.len()),
        forall|d: int| 0 <= d < dirs.len() ==> disk_said_is_dir(dirs[d], #[trigger] dir_ok[d]),
        forall|d: int, k: int|
            0 <= d < dirs.len() && 0 <= k < catalog().len() ==> answer_probed(
                dirs[d],
                dest,
                k,
                dir_ok[d],
                #[trigger] answers[d][k],
            ),
        scanned_view(found) == scan_all_spec(dirs, probes_from(dir_ok, answers), dirs.len()),
    ensures
        forall|i: int| 0 <= i < found.len() ==> found_in_scan(#[trigger] found[i], dirs, dest),
{
    let pf = probes_from(dir_ok, answers);
    assert forall|i: int| 0 <= i < found.len() implies found_in_scan(#[trigger] found[i], dirs, dest) by {
        let x = scanned_view(found)[i];
        assert(x == found[i]@);
        assert(scan_all_spec(dirs, pf, dirs.len()).contains(x));
        lemma_scan_all_members(dirs, pf, dirs.len(), x);
        let (d, k, l) = choose|d: int, k: int, l: u64|
            0 <= d < dirs.len() && 0 <= k < catalog().len() && pf[d][k] == Some(Some(l)) && l
                >= MIN_MODEL_SIZE && x == (
                catalog()[k].0,
                join_spec(dirs[d], catalog()[k].1),
                l / 1048576u64,
            );
        let a = answers[d][k];
        assert(pf[d][k] == scan_probe_spec(dir_ok[d], a.0, a.1, a.2));
        assert(answer_probed(dirs[d], dest, k, dir_ok[d], answers[d][k]));
        assert(disk_said_is_dir(dirs[d], dir_ok[d]));
        assert(listing_found(found[i], dirs[d], dest, k, l));
    }
}

/// Looks in a few well-known directories under the home directory for whisper model
/// files of the catalog that are not in the models directory yet, and lists those of
/// at least 50 MiB: directory by directory, in catalog order within each. What the
/// platform and the disk say (see `scan_probed`) is turned into probes by
/// `scan_probe`, and the probes into the list by `scanned_models`. So every listing
/// is a catalog model whose file the disk said is a regular file in a scanned
/// directory, whose file the disk said is not in the models directory, and whose
/// length the disk gave as at least 50 MiB; and with no home directory nothing is
/// listed.
pub fn scan_for_models() -> (r: Vec<ScannedModel>)
    ensures
        exists|
            home: Option<Seq<char>>,
            dest: Seq<char>,
            dir_ok: Seq<bool>,
            answers: Seq<Seq<(bool, bool, Option<u64>)>>,
        |
            {
                &&& scan_probed(home, dest, dir_ok, answers)
                &&& scanned_view(r@) == scan_all_spec(
                    scan_dirs_spec(home),
                    probes_from(dir_ok, answers),
                    scan_dirs_spec(home).len(),
                )
                &&& home is None ==> r@.len() == 0
                &&& forall|i: int|
                    0 <= i < r@.len() ==> found_in_scan(#[trigger] r@[i], scan_dirs_spec(home), dest)
            },
{
    let dest_dir = models_dir();
    let home = home_dir();
    let ghost home_view = crate::config::opt_view(home);
    let dirs = scan_dirs_from(home);
    let ghost dv = scan_dirs_spec(home_view);
    let all = models();
    let mut probes: Vec<Vec<ScanProbe>> = Vec::new();
    let ghost mut dir_ok: Seq<bool> = Seq::empty();
    let ghost mut answers: Seq<Seq<(bool, bool, Option<u64>)>> = Seq::empty();
    let mut d: usize = 0;
    assert(dirs@.len() == dv.len());
    while d < dirs.len()
        invariant
            d <= dirs.len() == dv.len(),
            strings_view(dirs@) == dv,
            probes.len() == d,
            all@.map_values(|m: ModelInfo| m@) == catalog(),
            answers_fit(dir_ok, answers, d as nat),
            probes_view(probes@) == probes_from(dir_ok, answers),
            forall|e: int| 0 <= e < probes.len() ==> #[trigger] probes@[e].len() == catalog().len(),
            forall|e: int| 0 <= e < d ==> disk_said_is_dir(dv[e], #[trigger] dir_ok[e]),
            forall|e: int, k: int|
                0 <= e < d && 0 <= k < catalog().len() ==> answer_probed(
                    dv[e],
                    dest_dir@,
                    k,
                    dir_ok[e],
                    #[trigger] answers[e][k],
                ),
        decreases dirs.len() - d,
    {
        assert(strings_view(dirs@)[d as int] == dirs@[d as int]@);
        let is_dir = probe_is_dir(dirs[d].as_str());
        let mut row: Vec<ScanProbe> = Vec::new();
        let ghost mut row_answers: Seq<(bool, bool, Option<u64>)> = Seq::empty();
        let mut k: usize = 0;
        while k < all.len()
            invariant
                d < dirs.len() == dv.len(),
                strings_view(dirs@) == dv,
                dirs@[d as int]@ == dv[d as int],
                all@.map_values(|m: ModelInfo| m@) == catalog(),
                k <= all.len() == catalog().len(),
                row.len() == k,
                row_answers.len() == k,
                row@ == Seq::new(
                    k as nat,
                    |j: int|
                        scan_probe_spec(is_dir, row_answers[j].0, row_answers[j].1, row_answers[j].2),
                ),
                forall|j: int|
                    0 <= j < k ==> answer_probed(
                        dv[d as int],
                        dest_dir@,
                        j,
                        is_dir,
                        #[trigger] row_answers[j],
                    ),
            decreases all.len() - k,
        {
            let m = all[k];
            assert(all@.map_values(|m: ModelInfo| m@)[k as int] == all@[k as int]@);
            let path = join_path(dirs[d].as_str(), m.filename);
            let is_file = if is_dir {
                probe_is_file(path.as_str())
            } else {
                false
            };
            let dest_exists = if is_dir && is_file {
                probe_exists(join_path(dest_dir.as_str(), m.filename).as_str())
            } else {
                false
            };
            let len = if is_dir && is_file && !dest_exists {
                probe_len(path.as_str())
            } else {
                None
            };
            row.push(scan_probe(is_dir, is_file, dest_exists, len));
            let ghost old_answers = row_answers;
            proof {
                row_answers = row_answers.push((is_file, dest_exists, len));
                assert(answer_probed(dv[d as int], dest_dir@, k as int, is_dir, row_answers[k as int]));
                assert forall|j: int| 0 <= j < k + 1 implies answer_probed(
                    dv[d as int],
                    dest_dir@,
                    j,
                    is_dir,
                    #[trigger] row_answers[j],
                ) by {
                    if j < k {
                        assert(row_answers[j] == old_answers[j]);
                    }
                }
            }
            assert(row@ =~= Seq::new(
                (k + 1) as nat,
                |j: int| scan_probe_spec(is_dir, row_answers[j].0, row_answers[j].1, row_answers[j].2),
            ));
            k = k + 1;
        }
        let ghost old_probes = probes@;
        let ghost old_dir_ok = dir_ok;
        let ghost old_answers = answers;
        probes.push(row);
        proof {
            dir_ok = dir_ok.push(is_dir);
            answers = answers.push(row_answers);
            assert(probes_view(probes@) =~= probes_from(dir_ok, answers)) by {
                assert forall|e: int| 0 <= e < probes@.len() implies #[trigger] probes_view(probes@)[e]
                    =~= probes_from(dir_ok, answers)[e] by {
                    assert(probes_view(probes@)[e] == probes@[e]@);
                    if e < d {
                        assert(probes@[e] == old_probes[e]);
                        assert(probes_view(old_probes)[e] == old_probes[e]@);
                        assert(probes_from(old_dir_ok, old_answers)[e] =~= probes_from(dir_ok, answers)[e]);
                    } else {
                        assert(probes@[e] == row);
                        assert(answers[e] == row_answers);
                        assert(dir_ok[e] == is_dir);
                    }
                }
            }
            assert forall|e: int| 0 <= e < d + 1 implies disk_said_is_dir(dv[e], #[trigger] dir_ok[e]) by {
                if e < d {
                    assert(dir_ok[e] == old_dir_ok[e]);
                }
            }
            assert forall|e: int, j: int|
                0 <= e < d + 1 && 0 <= j < catalog().len() implies answer_probed(
                dv[e],
                dest_dir@,
                j,
                dir_ok[e],
                #[trigger] answers[e][j],
            ) by {
                if e < d {
                    assert(answers[e] == old_answers[e]);
                    assert(dir_ok[e] == old_dir_ok[e]);
                } else {
                    assert(answers[e] == row_answers);
                }
            }
        }
        d = d + 1;
    }
    let r = scanned_models(&dirs, &probes);
    proof {
        let pf = probes_from(dir_ok, answers);
        assert(scan_probed(home_view, dest_dir@, dir_ok, answers));
        assert(scanned_view(r@) == scan_all_spec(dv, pf, dv.len()));
        assert(scanned_view(r@).len() == r@.len());
        if home_view is None {
            assert(dv.len() == 0);
            assert(scanned_view(r@).len() == 0);
        }
        lemma_scan_listings_found(r@, dv, dest_dir@, dir_ok, answers);
        assert(home_view is None ==> r@.len() == 0);
        assert(scan_probed(home_view, dest_dir@, dir_ok, answers));
        assert(scanned_view(r@) == scan_all_spec(
            scan_dirs_spec(home_view),
            probes_from(dir_ok, answers),
            scan_dirs_spec(home_view).len(),
        ));
        assert(true);
    }
    r
}

} // verus!
