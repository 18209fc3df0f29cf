//! File-system paths as opaque values carried through the editor state.
use std::path::PathBuf;
use vstd::prelude::*;

verus! {

#[verifier::external_type_specification]
#[verifier::external_body]
pub struct ExPathBuf(std::path::PathBuf);

/// `PathBuf::clone` gives an equal path.
pub assume_specification[ <std::path::PathBuf as Clone>::clone ](p: &PathBuf) -> (r: PathBuf)
    ensures
        r == *p,
;

/// `Option<PathBuf>::clone`.
pub(crate) fn clone_opt_path(p: &Option<PathBuf>) -> (r: Option<PathBuf>)
    ensures
        r == *p,
{
    match p {
        Some(q) => Some(q.clone()),
        None => None,
    }
}

} // verus!

verus! {

/// Whether something exists at path `p` (`Path::exists`). The answer depends
/// on the file system at the moment of the call, so nothing is stated of it.
#[verifier::external_body]
pub fn path_exists(p: &str) -> bool {
    std::path::Path::new(p).exists()
}

} // verus!

verus! {

/// `Path::to_str`: the path as text when it is valid Unicode. Nothing is
/// stated of the text (paths are opaque here).
#[verifier::external_body]
pub fn path_text(p: &PathBuf) -> Option<String> {
    p.to_str().map(|s| s.to_string())
}

/// `Path::file_name`: the last component of the path, converted lossily
/// to text. Nothing is stated of it (paths are opaque here).
#[verifier::external_body]
pub fn file_name_text(p: &PathBuf) -> Option<String> {
    p.file_name().map(|n| n.to_string_lossy().into_owned())
}

} // verus!
