//! The exit codes that the client hands to the operating system.

use vstd::prelude::*;

verus! {

/// Why the client process ends; each kind has a fixed process exit code that
/// the server side shares.
#[derive(Clone, Copy, Debug, PartialEq, Eq, Structural)]
pub enum ExitCode {
    /// The command succeeded.
    Success,
    /// Bad or illegal flags or command combination: the user must change the
    /// command line.
    BadArgv,
    /// The user interrupted the command.
    Interrupted,
    /// The lock is held and `--noblock_for_lock` was given.
    LockHeldNoblockForLock,
    /// Something is wrong with the host; a re-run probably will not help.
    LocalEnvironmentalError,
    /// A protocol invariant was violated or the server ended unexpectedly.
    InternalError,
}

impl ExitCode {
    pub open spec fn spec_code(self) -> i32 {
        match self {
            ExitCode::Success => 0,
            ExitCode::BadArgv => 2,
            ExitCode::Interrupted => 8,
            ExitCode::LockHeldNoblockForLock => 9,
            ExitCode::LocalEnvironmentalError => 36,
            ExitCode::InternalError => 37,
        }
    }

    /// The numeric process exit code.
    pub fn code(&self) -> (r: i32)
        ensures
            r == self.spec_code(),
    {
        match self {
            ExitCode::Success => 0,
            ExitCode::BadArgv => 2,
            ExitCode::Interrupted => 8,
            ExitCode::LockHeldNoblockForLock => 9,
            ExitCode::LocalEnvironmentalError => 36,
            ExitCode::InternalError => 37,
        }
    }

    /// The kind whose numeric code is `c`, if any.
    pub fn from_code(c: i32) -> (r: Option<ExitCode>)
        ensures
            match r {
                Some(e) => e.spec_code() == c,
                None => forall|e: ExitCode| e.spec_code() != c,
            },
    {
        if c == 0 {
            Some(ExitCode::Success)
        } else if c == 2 {
            Some(ExitCode::BadArgv)
        } else if c == 8 {
            Some(ExitCode::Interrupted)
        } else if c == 9 {
            Some(ExitCode::LockHeldNoblockForLock)
        } else if c == 36 {
            Some(ExitCode::LocalEnvironmentalError)
        } else if c == 37 {
            Some(ExitCode::InternalError)
        } else {
            None
        }
    }
}

/// A fatal outcome: the exit code to end with and a message for the user.
pub struct ExitError {
    pub code: ExitCode,
    pub reason: String,
}

impl ExitError {
    pub fn new(code: ExitCode, reason: String) -> (r: ExitError)
        ensures
            r.code == code,
            r.reason@ == reason@,
    {
        ExitError { code, reason }
    }
}

} // verus!
