use vstd::prelude::*;

verus! {

/// Calls `std::path::Path::exists`: whether the path names an existing entry
/// (following symbolic links; `false` when its metadata cannot be read). The answer
/// rests on the disk at the moment of the call, so nothing is promised of it.
#[verifier::external_body]
pub(crate) fn path_exists(path: &str) -> bool {
    std::path::Path::new(path).exists()
}

/// Calls `std::path::Path::is_dir`: whether the path names a directory. The answer
/// rests on the disk at the moment of the call, so nothing is promised of it.
#[verifier::external_body]
pub(crate) fn path_is_dir(path: &str) -> bool {
    std::path::Path::new(path).is_dir()
}

/// Calls `std::path::Path::is_file`: whether the path names a regular file. The
/// answer rests on the disk at the moment of the call, so nothing is promised of it.
#[verifier::external_body]
pub(crate) fn path_is_file(path: &str) -> bool {
    std::path::Path::new(path).is_file()
}

/// Calls `std::path::Path::metadata` and keeps the file's length in bytes, or `None`
/// where the metadata cannot be read. The answer rests on the disk at the moment of
/// the call, so nothing is promised of it.
#[verifier::external_body]
pub(crate) fn file_len(path: &str) -> Option<u64> {
    match std::path::Path::new(path).metadata() {
        Ok(meta) => Some(meta.len()),
        Err(_) => None,
    }
}


/// Whether `exists` is an answer that `path_exists` (`Path::exists`) gives for `path`:
/// the disk said so when asked about that path.
pub closed spec fn disk_said_exists(path: Seq<char>, exists: bool) -> bool {
    exists|s: &str| s@ == path && call_ensures(path_exists, (s,), exists)
}

/// Whether `is_dir` is an answer that `path_is_dir` (`Path::is_dir`) gives for `path`.
pub closed spec fn disk_said_is_dir(path: Seq<char>, is_dir: bool) -> bool {
    exists|s: &str| s@ == path && call_ensures(path_is_dir, (s,), is_dir)
}

/// Whether `is_file` is an answer that `path_is_file` (`Path::is_file`) gives for
/// `path`.
pub closed spec fn disk_said_is_file(path: Seq<char>, is_file: bool) -> bool {
    exists|s: &str| s@ == path && call_ensures(path_is_file, (s,), is_file)
}

/// Whether `len` is an answer that `file_len` (the length in `Path::metadata`, `None`
/// where it cannot be read) gives for `path`.
pub closed spec fn disk_said_len(path: Seq<char>, len: Option<u64>) -> bool {
    exists|s: &str| s@ == path && call_ensures(file_len, (s,), len)
}

/// Asks the disk whether `path` names an existing entry.
pub fn probe_exists(path: &str) -> (r: bool)
    ensures
        disk_said_exists(path@, r),
{
    let ask = path_exists;
    ask(path)
}

/// Asks the disk whether `path` names a directory.
pub fn probe_is_dir(path: &str) -> (r: bool)
    ensures
        disk_said_is_dir(path@, r),
{
    let ask = path_is_dir;
    ask(path)
}

/// Asks the disk whether `path` names a regular file.
pub fn probe_is_file(path: &str) -> (r: bool)
    ensures
        disk_said_is_file(path@, r),
{
    let ask = path_is_file;
    ask(path)
}

/// Asks the disk for the length of the file at `path` (`None`: unreadable).
pub fn probe_len(path: &str) -> (r: Option<u64>)
    ensures
        disk_said_len(path@, r),
{
    let ask = file_len;
    ask(path)
}

} // verus!
