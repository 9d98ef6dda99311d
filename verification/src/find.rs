//! Search by file name: the files of a walk whose name a regular
//! expression matches.
//!
//! The expression engine is `regex`, reached through the trusted
//! declarations at the head of this file.

use vstd::prelude::*;
use crate::error::{failures, Failure, FsError};
use crate::walk::{EntryMeta, FsVisitor};

verus! {

/// `regex::Regex`, a compiled expression. Opaque to the verifier.
#[verifier::external_type_specification]
#[verifier::external_body]
pub struct ExRegex(regex::Regex);

/// What a compiled expression holds: the texts in which `Regex::is_match`
/// finds a match.
pub uninterp spec fn matched_texts(regex: regex::Regex) -> Set<Seq<char>>;

/// What compiling an expression gives: `None` where `regex` refuses the
/// pattern, else the texts in which the compiled expression finds a match.
pub uninterp spec fn regex_language(pattern: Seq<char>) -> Option<Set<Seq<char>>>;

/// What `Path::file_name` gives for a path, on the platform that the
/// library is built for: its last component, or `None` where the path ends
/// in `..` or has no component.
pub uninterp spec fn file_name(path: Seq<char>) -> Option<Seq<char>>;

/// `regex::Regex::new`. Claimed: the outcome depends on the pattern alone;
/// on success the expression finds a match in exactly the texts that
/// `regex_language` names.
#[verifier::external_body]
fn compile_regex(pattern: &str) -> (r: Result<regex::Regex, regex::Error>)
    ensures
        match r {
            Ok(regex) => regex_language(pattern@) == Some(matched_texts(regex)),
            Err(_) => regex_language(pattern@) is None,
        },
{
    regex::Regex::new(pattern)
}

/// `regex::Regex::is_match`. Claimed: the answer is membership in the
/// expression's matched texts.
#[verifier::external_body]
fn regex_is_match(regex: &regex::Regex, text: &str) -> (r: bool)
    ensures
        r == matched_texts(*regex).contains(text@),
{
    regex.is_match(text)
}

/// `std::path::Path::file_name`, on a path given as text. Claimed: the
/// outcome depends on the text alone.
#[verifier::external_body]
fn path_file_name(path: &str) -> (r: Option<String>)
    ensures
        match r {
            Some(name) => file_name(path@) == Some(name@),
            None => file_name(path@) is None,
        },
{
    match std::path::Path::new(path).file_name() {
        Some(name) => Some(name.to_string_lossy().into_owned()),
        None => None,
    }
}

/// A file that was found.
#[derive(Debug)]
pub struct FindEntry {
    pub name: String,
    pub size: u64,
    pub depth: usize,
}

/// A found file as the contracts see it.
pub struct Found {
    pub name: Seq<char>,
    pub size: u64,
    pub depth: usize,
}

impl View for FindEntry {
    type V = Found;

    open spec fn view(&self) -> Found {
        Found { name: self.name@, size: self.size, depth: self.depth }
    }
}

impl Default for FindEntry {
    fn default() -> (r: FindEntry)
        ensures
            r@ == (Found { name: Seq::empty(), size: 0, depth: 0 }),
    {
        FindEntry { name: String::new(), size: 0, depth: 0 }
    }
}

/// The files found by a search together with the errors met on the way.
#[derive(Debug)]
pub struct FindReport {
    pub entries: Vec<FindEntry>,
    pub errors: Vec<FsError>,
}

/// The views of a list of found files.
pub open spec fn found_views(entries: Seq<FindEntry>) -> Seq<Found> {
    entries.map_values(|e: FindEntry| e@)
}

/// Whether a file at `path` is found by an expression with the matched
/// texts `language`: its path has a file name, and the expression finds a
/// match in that name.
pub open spec fn is_found(language: Set<Seq<char>>, path: Seq<char>) -> bool {
    file_name(path) matches Some(name) && language.contains(name)
}

/// The visitor that collects the files whose name the expression matches.
pub struct FindVisitor {
    pattern: regex::Regex,
    entries: Vec<FindEntry>,
    errors: Vec<FsError>,
}

impl FindVisitor {
    /// The texts in which the visitor's expression finds a match.
    pub closed spec fn language(&self) -> Set<Seq<char>> {
        matched_texts(self.pattern)
    }

    /// The files found so far, in the order of the walk.
    pub closed spec fn found(&self) -> Seq<Found> {
        found_views(self.entries@)
    }

    /// The errors so far, in the order in which they came.
    pub closed spec fn errors(&self) -> Seq<Failure> {
        failures(self.errors@)
    }

    /// A visitor for the expression `regex`, or the engine's error where
    /// the expression is refused.
    pub fn new(regex: &str) -> (r: Result<Self, FsError>)
        ensures
            match r {
                Ok(visitor) => {
                    &&& regex_language(regex@) == Some(visitor.language())
                    &&& visitor.found() == Seq::<Found>::empty()
                    &&& visitor.errors() == Seq::<Failure>::empty()
                },
                Err(error) => regex_language(regex@) is None && error@ is Regex,
            },
    {
        match compile_regex(regex) {
            Ok(pattern) => {
                let visitor = FindVisitor { pattern, entries: Vec::new(), errors: Vec::new() };
                assert(visitor.found() =~= Seq::<Found>::empty());
                assert(visitor.errors() =~= Seq::<Failure>::empty());
                Ok(visitor)
            },
            Err(error) => Err(FsError::from(error)),
        }
    }

    /// Whether the expression finds a match in `name`.
    pub fn matches_name(&self, name: &str) -> (r: bool)
        ensures
            r == self.language().contains(name@),
    {
        regex_is_match(&self.pattern, name)
    }

    /// The found files and the errors, at the end of a walk.
    pub fn into_report(self) -> (r: FindReport)
        ensures
            found_views(r.entries@) == self.found(),
            failures(r.errors@) == self.errors(),
    {
        FindReport { entries: self.entries, errors: self.errors }
    }
}

/// The report of a search that could not begin: nothing found, and the one
/// error that stopped it.
pub fn failed_search(error: FsError) -> (r: FindReport)
    ensures
        r.entries@.len() == 0,
        failures(r.errors@) == seq![error@],
{
    let mut errors: Vec<FsError> = Vec::new();
    errors.push(error);
    assert(failures(errors@) =~= seq![error@]);
    FindReport { entries: Vec::new(), errors }
}

impl FsVisitor for FindVisitor {
    fn visit_file(&mut self, path: &str, meta: &EntryMeta, depth: usize)
        ensures
            final(self).language() == old(self).language(),
            final(self).errors() == old(self).errors(),
            final(self).found() == if is_found(old(self).language(), path@) {
                old(self).found().push(Found { name: path@, size: meta.size, depth })
            } else {
                old(self).found()
            },
    {
        match path_file_name(path) {
            Some(name) => {
                if regex_is_match(&self.pattern, name.as_str()) {
                    let entry = FindEntry { name: path.to_owned(), size: meta.len(), depth };
                    assert(found_views(self.entries@.push(entry)) =~= found_views(
                        self.entries@,
                    ).push(entry@));
                    self.entries.push(entry);
                }
            },
            None => {},
        }
    }

    fn enter_dir(&mut self, path: &str, meta: &EntryMeta, depth: usize)
        ensures
            final(self).language() == old(self).language(),
            final(self).errors() == old(self).errors(),
            final(self).found() == old(self).found(),
    {
    }

    fn exit_dir(&mut self, path: &str, meta: &EntryMeta, depth: usize)
        ensures
            final(self).language() == old(self).language(),
            final(self).errors() == old(self).errors(),
            final(self).found() == old(self).found(),
    {
    }

    fn visit_symlink(&mut self, path: &str, depth: usize)
        ensures
            final(self).language() == old(self).language(),
            final(self).errors() == old(self).errors(),
            final(self).found() == old(self).found(),
    {
    }

    fn on_error(&mut self, error: FsError)
        ensures
            final(self).language() == old(self).language(),
            final(self).errors() == old(self).errors().push(error@),
            final(self).found() == old(self).found(),
    {
        assert(failures(self.errors@.push(error)) =~= failures(self.errors@).push(error@));
        self.errors.push(error);
    }
}

} // verus!
