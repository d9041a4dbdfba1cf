//! Error translation around plain file reads and writes.
use vstd::prelude::*;
use vstd::string::StringExecFns;
use crate::error::StorageError;

verus! {

/// The error of a failed create or write call, carrying the system's text.
pub fn io_outcome(outcome: Result<(), String>) -> (r: Result<(), StorageError>)
    ensures
        match outcome {
            Ok(()) => r is Ok,
            Err(e) => r matches Err(StorageError::Io { detail }) && detail@ == e@,
        },
{
    match outcome {
        Ok(()) => Ok(()),
        Err(e) => Err(StorageError::Io { detail: e }),
    }
}

/// The text of the file at `path`, given what reading it gave: `None` where
/// the path does not exist (a not-found error naming it), the system's text
/// of a failed read (an I/O error), or the contents.
pub fn read_outcome(path: &str, read: Option<Result<String, String>>) -> (r: Result<String, StorageError>)
    ensures
        match read {
            None => r matches Err(StorageError::NotFound { path: p }) && p@ == path@,
            Some(Ok(t)) => r matches Ok(x) && x@ == t@,
            Some(Err(e)) => r matches Err(StorageError::Io { detail }) && detail@ == e@,
        },
{
    match read {
        None => Err(StorageError::NotFound { path: String::from_str(path) }),
        Some(Ok(t)) => Ok(t),
        Some(Err(e)) => Err(StorageError::Io { detail: e }),
    }
}

} // verus!
