//! What can go wrong while a compiler is found, installed or run.

use std::path::PathBuf;

use vstd::prelude::*;

verus! {

/// How a process ended: with an exit code, or by a signal.
#[derive(Clone, Copy, Debug, PartialEq, Eq, Structural)]
pub struct ExitStatus {
    /// The exit code, where the process ended with one.
    pub code: Option<i32>,
    /// The signal that ended the process, where one did.
    pub signal: Option<i32>,
}

impl ExitStatus {
    /// Whether the process ended with exit code zero.
    pub open spec fn succeeded(self) -> bool {
        self.code == Some(0i32)
    }

    /// Whether the process ended with exit code zero.
    pub fn success(&self) -> (res: bool)
        ensures
            res == self.succeeded(),
    {
        match self.code {
            Some(code) => code == 0,
            None => false,
        }
    }
}

#[derive(Debug)]
pub enum SolcError {
    /// The compiler failed: its exit status and what it printed.
    SolcError(ExitStatus, String),
    /// A version could not be read, for the reason that this message gives.
    SemverError(String),
    /// The compiler input could not be serialised.
    SerdeJson(String),
    /// A file or a process at `path` could not be used.
    Io { error: String, path: PathBuf },
    /// The compiler printed bytes that are no text.
    InvalidUtf8,
    /// Everything else.
    Message(String),
}

impl SolcError {
    /// Whether this is the plain message `text`.
    pub open spec fn says(self, text: Seq<char>) -> bool {
        self matches SolcError::Message(m) && m@ == text
    }

    /// Whether this is the failure `error` of an operation on `path`.
    pub open spec fn is_io(self, error: Seq<char>, path: PathBuf) -> bool {
        self matches SolcError::Io { error: e, path: p } && e@ == error && p == path
    }

    /// Whether this is the failure to read a version that `message` explains.
    pub open spec fn is_refusal(self, message: Seq<char>) -> bool {
        self matches SolcError::SemverError(m) && m@ == message
    }

    /// Whether this is a compiler failure with that status and text.
    pub open spec fn is_failure(self, status: ExitStatus, text: Seq<char>) -> bool {
        self matches SolcError::SolcError(s, t) && s == status && t@ == text
    }

    /// A plain message.
    pub fn msg(text: &str) -> (res: SolcError)
        ensures
            res.says(text@),
    {
        SolcError::Message(text.to_owned())
    }

    /// The failure `error` of an operation on `path`.
    pub fn io(error: String, path: &PathBuf) -> (res: SolcError)
        ensures
            res.is_io(error@, *path),
    {
        SolcError::Io { error, path: path.clone() }
    }
}

/// Turns the failure `err` to run the compiler at `resolc_path` into an error.
pub fn map_io_err(resolc_path: &PathBuf, err: String) -> (res: SolcError)
    ensures
        res.is_io(err@, *resolc_path),
{
    SolcError::io(err, resolc_path)
}

} // verus!
