//! Failure taxonomy shared by the whole library.

use vstd::prelude::*;

verus! {

/// Library-wide error type.
///
/// `Security` marks any policy breach (path, command, archive); `Config`
/// marks invalid startup configuration; `Io`, `Json` and `External` carry
/// the offending message as text; `InvalidPath` keeps the rejected path
/// together with the reason.
#[derive(Debug, Clone)]
pub enum Error {
    Config(String),
    Security(String),
    Io(String),
    Json(String),
    InvalidPath { path: String, reason: String },
    External(String),
}

impl Error {
    /// True iff this error marks a policy breach.
    pub fn is_security(&self) -> (r: bool)
        ensures
            r == (self is Security),
    {
        match self {
            Error::Security(_) => true,
            _ => false,
        }
    }
}

} // verus!
