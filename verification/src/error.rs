//! The outcome model shared by every invocation: an exit status as the
//! platform reports it, and the single error type that all operations of
//! this crate return.

use vstd::prelude::*;

verus! {

/// The terminal status of an external process: `code` is `Some(c)` when
/// the process exited normally with code `c`, and `None` when it was
/// terminated without a normal exit; `signal` carries the terminating
/// signal's number where the platform reports one.
#[derive(Clone, Copy, Debug)]
pub struct ExitStatus {
    pub code: Option<i32>,
    pub signal: Option<i32>,
}

impl ExitStatus {
    /// A status counts as success exactly when the process exited normally
    /// with code zero.
    pub open spec fn is_success(self) -> bool {
        self.code == Some(0i32)
    }

    pub fn success(&self) -> (r: bool)
        ensures
            r == self.is_success(),
    {
        match self.code {
            Some(c) => c == 0,
            None => false,
        }
    }
}

/// What went wrong, kept apart by kind so that a caller can apply its own
/// policy without parsing error text.
#[derive(Clone, Copy, Debug)]
pub enum SimpleErrorKind {
    /// The process ran and terminated without success; carries its full
    /// exit status so that operators can correlate with the tool's own
    /// documented exit codes.
    Command(ExitStatus),
    /// The binary locator held no executable token at all.
    InvalidInput,
    /// The operating system could not create the process.
    LaunchFailed,
    /// The operating system failed while waiting for the process to exit.
    WaitFailed,
    /// Any other failure, such as a failed remote lookup or download.
    Other,
}

/// An error with its kind and an optional human-readable message.
#[derive(Debug)]
pub struct SimpleError {
    pub kind: SimpleErrorKind,
    pub message: Option<String>,
}

impl SimpleError {
    /// True when this error has the given kind and exactly the given
    /// message text.
    pub open spec fn is_error(self, kind: SimpleErrorKind, msg: Seq<char>) -> bool {
        &&& self.kind == kind
        &&& match self.message {
            Some(m) => m@ == msg,
            None => false,
        }
    }

    pub fn new(kind: SimpleErrorKind, message: Option<&str>) -> (r: SimpleError)
        ensures
            r.kind == kind,
            match (message, r.message) {
                (Some(given), Some(kept)) => kept@ == given@,
                (None, None) => true,
                _ => false,
            },
    {
        let message_owned: Option<String> = match message {
            Some(m) => Some(m.to_owned()),
            None => None,
        };
        SimpleError { kind, message: message_owned }
    }
}

} // verus!
