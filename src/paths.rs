use vstd::prelude::*;
use std::path::Path;

verus! {

#[verifier::external_type_specification]
#[verifier::external_body]
pub struct ExPath(Path);

/// The text that a path was made from.
pub uninterp spec fn path_text(p: &Path) -> Seq<char>;

/// Relies on `Path::new`, which wraps the text as a path without copying it.
#[verifier::external_body]
fn path_new(s: &str) -> (r: &Path)
    ensures
        path_text(r) == s@,
{
    Path::new(s)
}

/// Relies on `Path::exists`, which asks the file system whether anything is there.
#[verifier::external_body]
fn path_exists(path: &Path) -> (r: bool) {
    path.exists()
}

/// Relies on `Path::is_file`, which asks the file system whether a regular file is there.
#[verifier::external_body]
fn path_is_file(path: &Path) -> (r: bool) {
    path.is_file()
}

/// Reads a command-line argument as a path.
pub fn str_to_path(s: &str) -> (r: &Path)
    ensures
        path_text(r) == s@,
{
    path_new(s)
}

/// Whether a path can be opened as a file, given what the file system answered: that
/// something exists there, and that it is a regular file.
pub fn regular_file(exists: bool, is_file: bool) -> (r: bool)
    ensures
        r == (exists && is_file),
{
    exists && is_file
}

/// Whether something exists at `path` and is a regular file: this asks the file system, and
/// the answer is `regular_file` of its two answers.
pub fn file_exists(path: &Path) -> (r: bool) {
    let exists = path_exists(path);
    let is_file = path_is_file(path);
    regular_file(exists, is_file)
}

} // verus!
