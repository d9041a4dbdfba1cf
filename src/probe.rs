//! The decisions of a write-access probe of a directory.
use vstd::prelude::*;
use vstd::string::StringExecFns;
use crate::error::StorageError;
use crate::paths::{join, join_spec};

verus! {

/// Name of the marker file that the probe writes into the directory.
pub open spec fn marker_name_spec() -> Seq<char> {
    seq!['.', 'w', 'r', 'i', 't', 'e', '_', 'p', 'r', 'o', 'b', 'e', '_', '7', 'f', '3', 'a', '.', 't', 'm', 'p']
}

/// Contents of the marker file.
pub open spec fn marker_contents_spec() -> Seq<char> {
    seq!['p', 'r', 'o', 'b', 'e']
}

/// Where the probe of `dir` leaves its marker.
pub open spec fn marker_path_spec(dir: Seq<char>) -> Seq<char> {
    join_spec(dir, marker_name_spec())
}

/// What a write-access probe found out about a directory.
#[derive(Debug)]
pub struct FilesystemProbeResult {
    pub path: String,
    pub exists: bool,
    pub is_writable: bool,
    /// True only where the directory was absent and this probe created it.
    pub created: bool,
    /// The marker file, set only when writing it succeeded.
    pub test_file_path: Option<String>,
}

/// The next piece of outside work a probe asks for.
#[derive(Debug)]
pub enum ProbeNext {
    /// Create the directory and its missing parents.
    CreateDir,
    /// Write `contents` to the file `file`; `created` says whether the probe
    /// created the directory.
    WriteMarker { file: String, contents: String, created: bool },
}

pub open spec fn is_marker_write(n: ProbeNext, dir: Seq<char>, was_created: bool) -> bool {
    n matches ProbeNext::WriteMarker { file, contents, created }
        && file@ == marker_path_spec(dir) && contents@ == marker_contents_spec()
        && created == was_created
}

/// A successful probe of `dir`: it exists, is writable, and the marker's path
/// is reported.
pub open spec fn is_probe_success(res: FilesystemProbeResult, dir: Seq<char>, created: bool) -> bool {
    &&& res.path@ == dir
    &&& res.exists
    &&& res.is_writable
    &&& res.created == created
    &&& (res.test_file_path matches Some(t) && t@ == marker_path_spec(dir))
}

fn marker_write(path: &str, created: bool) -> (r: ProbeNext)
    ensures
        is_marker_write(r, path@, created),
{
    let name = ".write_probe_7f3a.tmp";
    let contents = "probe";
    proof {
        reveal_strlit(".write_probe_7f3a.tmp");
        reveal_strlit("probe");
        assert(name@ =~= marker_name_spec());
        assert(contents@ =~= marker_contents_spec());
    }
    ProbeNext::WriteMarker { file: join(path, name), contents: String::from_str(contents), created }
}

/// First step of a probe of `path`, once it is known whether the directory
/// exists: an existing directory gets the marker straight away, with
/// `created` false; a missing one is created first.
pub fn after_existence_check(path: &str, exists: bool) -> (r: ProbeNext)
    ensures
        exists ==> is_marker_write(r, path@, false),
        !exists ==> r is CreateDir,
{
    if exists {
        marker_write(path, false)
    } else {
        ProbeNext::CreateDir
    }
}

/// Step after creating the missing directory `path`: on success the marker
/// is written next, with `created` true; a failure ends the probe with an
/// I/O error that carries the system's text.
pub fn after_create(path: &str, outcome: Result<(), String>) -> (r: Result<ProbeNext, StorageError>)
    ensures
        match outcome {
            Ok(()) => r matches Ok(n) && is_marker_write(n, path@, true),
            Err(e) => r matches Err(StorageError::Io { detail }) && detail@ == e@,
        },
{
    match outcome {
        Ok(()) => Ok(marker_write(path, true)),
        Err(e) => Err(StorageError::Io { detail: e }),
    }
}

/// Last step, after writing the marker into `path`: on success the directory
/// exists and is writable and the marker's path is reported; a failure is an
/// I/O error, so no result claims the directory writable.
pub fn after_marker_write(path: &str, created: bool, outcome: Result<(), String>) -> (r: Result<FilesystemProbeResult, StorageError>)
    ensures
        match outcome {
            Ok(()) => r matches Ok(res) && is_probe_success(res, path@, created),
            Err(e) => r matches Err(StorageError::Io { detail }) && detail@ == e@,
        },
{
    match outcome {
        Ok(()) => {
            let name = ".write_probe_7f3a.tmp";
            proof {
                reveal_strlit(".write_probe_7f3a.tmp");
                assert(name@ =~= marker_name_spec());
            }
            Ok(FilesystemProbeResult {
                path: String::from_str(path),
                exists: true,
                is_writable: true,
                created,
                test_file_path: Some(join(path, name)),
            })
        },
        Err(e) => Err(StorageError::Io { detail: e }),
    }
}

} // verus!
