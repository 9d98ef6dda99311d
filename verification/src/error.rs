//! What can go wrong during a walk or a search. No error stops a walk:
//! each is reported with the path it belongs to.

use vstd::prelude::*;
use crate::text::append_str;

verus! {

/// `std::io::Error`, the cause of a failed file-system call. Opaque to the
/// verifier: the library carries it from where it arose to the visitor.
#[verifier::external_type_specification]
#[verifier::external_body]
pub struct ExIoError(std::io::Error);

/// `regex::Error`, why a search pattern was refused. Opaque to the
/// verifier.
#[verifier::external_type_specification]
#[verifier::external_body]
pub struct ExRegexError(regex::Error);

/// An error met during a walk or a search.
#[derive(Debug)]
pub enum FsError {
    /// A file-system call on the path failed.
    Io(String, std::io::Error),
    /// The search pattern is no regular expression.
    RegexError(regex::Error),
}

/// An error as the contracts see it: a path is the text it holds; the
/// cause is carried as it is.
pub enum Failure {
    Io(Seq<char>, std::io::Error),
    Regex(regex::Error),
}

impl View for FsError {
    type V = Failure;

    open spec fn view(&self) -> Failure {
        match *self {
            FsError::Io(path, cause) => Failure::Io(path@, cause),
            FsError::RegexError(cause) => Failure::Regex(cause),
        }
    }
}

/// The views of a list of errors.
pub open spec fn failures(errors: Seq<FsError>) -> Seq<Failure> {
    errors.map_values(|e: FsError| e@)
}

/// `Display` of a `std::io::Error`, as a string. Nothing is claimed of the
/// wording, which the operating system may supply.
#[verifier::external_body]
fn io_error_text(error: &std::io::Error) -> (r: String) {
    error.to_string()
}

/// `Display` of a `regex::Error`, as a string. Nothing is claimed of the
/// wording.
#[verifier::external_body]
fn regex_error_text(error: &regex::Error) -> (r: String) {
    error.to_string()
}

/// The report of a failed file-system call: the path, a colon and a
/// space, then the cause.
pub open spec fn io_message_text(path: Seq<char>, cause: Seq<char>) -> Seq<char> {
    path + seq![':', ' '] + cause
}

/// The report of a failed file-system call on `path` with cause `cause`.
pub fn io_message(path: &str, cause: &str) -> (r: String)
    ensures
        r@ == io_message_text(path@, cause@),
{
    let mut line = String::new();
    append_str(&mut line, path);
    line.push(':');
    line.push(' ');
    append_str(&mut line, cause);
    assert(line@ == path@ + seq![':', ' '] + cause@);
    line
}

impl FsError {
    /// The path that the error belongs to, if it is one of the file system.
    pub fn path(&self) -> (r: Option<&str>)
        ensures
            match self@ {
                Failure::Io(path, _) => r matches Some(p) && p@ == path,
                Failure::Regex(_) => r is None,
            },
    {
        match self {
            FsError::Io(path, _) => Some(path.as_str()),
            FsError::RegexError(_) => None,
        }
    }

    /// The error in words: for a file-system error the path, then the
    /// cause in the words of the operating system; for a refused pattern
    /// the words of the expression engine.
    pub fn message(&self) -> (r: String)
        ensures
            match self@ {
                Failure::Io(path, _) => exists|cause: Seq<char>| r@ == io_message_text(path, cause),
                Failure::Regex(_) => true,
            },
    {
        match self {
            FsError::Io(path, error) => {
                let cause = io_error_text(error);
                let line = io_message(path.as_str(), cause.as_str());
                assert(self@ == Failure::Io(path@, *error));
                assert(line@ == io_message_text(path@, cause@));
                assert(self@->Io_0 == path@);
                assert(exists|c: Seq<char>| line@ == #[trigger] io_message_text(self@->Io_0, c));
                line
            },
            FsError::RegexError(error) => regex_error_text(error),
        }
    }
}

impl From<regex::Error> for FsError {
    fn from(err: regex::Error) -> (r: FsError) {
        FsError::RegexError(err)
    }
}

impl vstd::std_specs::convert::FromSpecImpl<regex::Error> for FsError {
    open spec fn obeys_from_spec() -> bool {
        true
    }

    open spec fn from_spec(err: regex::Error) -> FsError {
        FsError::RegexError(err)
    }
}

} // verus!
