//! The glob engine behind the ignore rules: `globset`, reached through a
//! handful of trusted declarations. Nothing in this file is proved; the
//! rest of the crate is proved against what is stated here.
//!
//! What a glob matches and how a path is taken apart differ between
//! platforms (the separator, the escape character). The names below stand
//! for what the calls give on the platform that the library is built for.

use vstd::prelude::*;

verus! {

/// `globset::GlobSet`, a compiled matcher. Opaque to the verifier.
#[verifier::external_type_specification]
#[verifier::external_body]
pub struct ExGlobSet(globset::GlobSet);

/// `globset::Error`, why a glob text was refused. Opaque to the verifier.
#[verifier::external_type_specification]
#[verifier::external_body]
pub struct ExGlobError(globset::Error);

/// What a compiled matcher holds: the paths that `GlobSet::is_match`
/// accepts.
pub uninterp spec fn accepted_paths(set: globset::GlobSet) -> Set<Seq<char>>;

/// What compiling a glob text gives: `None` where `globset` refuses the
/// text, else the paths that the compiled matcher accepts.
pub uninterp spec fn glob_language(text: Seq<char>) -> Option<Set<Seq<char>>>;

/// What `Path::strip_prefix` gives for `path` and base `root`: the rest of
/// `path` below `root`, or `None` where `root` is no prefix of `path`.
pub uninterp spec fn relative_path(path: Seq<char>, root: Seq<char>) -> Option<Seq<char>>;

/// Whether the glob `text` compiles and its matcher accepts `path`.
pub open spec fn glob_matches(text: Seq<char>, path: Seq<char>) -> bool {
    glob_language(text) matches Some(paths) && paths.contains(path)
}

/// Parses `text` with `globset::Glob::new`, under the default options, and
/// compiles the one glob with `globset::GlobSet::new`, which hands back an
/// error where the glob's expression is too large or too deep to compile.
/// Claimed: the outcome depends on `text` alone; an error from either call
/// is handed on, and on success the matcher accepts exactly the paths that
/// `glob_language` names.
#[verifier::external_body]
pub(crate) fn compile_glob(text: &str) -> (r: Result<globset::GlobSet, globset::Error>)
    ensures
        match r {
            Ok(set) => glob_language(text@) == Some(accepted_paths(set)),
            Err(_) => glob_language(text@) is None,
        },
{
    let glob = globset::Glob::new(text)?;
    globset::GlobSet::new([glob])
}

/// `globset::GlobSet::is_match` on a path given as text. Claimed: the
/// answer is membership in the matcher's accepted paths.
#[verifier::external_body]
pub(crate) fn glob_set_is_match(set: &globset::GlobSet, path: &str) -> (r: bool)
    ensures
        r == accepted_paths(*set).contains(path@),
{
    set.is_match(path)
}

/// `std::path::Path::strip_prefix`, on paths given as text. Claimed: the
/// outcome depends on the two texts alone; `None` stands for the error
/// that `strip_prefix` returns where `root` is no prefix of `path`.
#[verifier::external_body]
pub(crate) fn strip_root(path: &str, root: &str) -> (r: Option<String>)
    ensures
        match r {
            Some(rel) => relative_path(path@, root@) == Some(rel@),
            None => relative_path(path@, root@) is None,
        },
{
    match std::path::Path::new(path).strip_prefix(root) {
        Ok(rel) => Some(rel.to_string_lossy().into_owned()),
        Err(_) => None,
    }
}

/// `Display` of a `globset::Error`, as a string. Nothing is claimed of the
/// wording.
#[verifier::external_body]
pub(crate) fn glob_error_text(error: &globset::Error) -> (r: String) {
    error.to_string()
}

} // verus!
