//! Errors of the storage operations and their messages.
use vstd::prelude::*;
use vstd::string::StringExecFns;

verus! {

/// Every way an operation of this library can fail.
#[derive(Debug)]
pub enum StorageError {
    /// A required base directory could not be determined by the host.
    Unresolved,
    /// An expected file is absent.
    NotFound { path: String },
    /// A create, read or write call failed; holds the operating system's text.
    Io { detail: String },
    /// The content is not a well-formed record of the expected shape.
    Decode,
}

pub open spec fn describe_spec(e: StorageError) -> Seq<char> {
    match e {
        StorageError::Unresolved => "base directory could not be resolved"@,
        StorageError::NotFound { path } => "file not found: "@ + path@,
        StorageError::Io { detail } => "i/o error: "@ + detail@,
        StorageError::Decode => "malformed record"@,
    }
}

impl StorageError {
    /// The one-line message handed to the caller for this error.
    pub fn describe(&self) -> (r: String)
        ensures
            r@ == describe_spec(*self),
    {
        match self {
            StorageError::Unresolved => String::from_str("base directory could not be resolved"),
            StorageError::NotFound { path } => {
                let mut r = String::from_str("file not found: ");
                r.append(path.as_str());
                r
            },
            StorageError::Io { detail } => {
                let mut r = String::from_str("i/o error: ");
                r.append(detail.as_str());
                r
            },
            StorageError::Decode => String::from_str("malformed record"),
        }
    }
}

} // verus!
