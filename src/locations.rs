//! Candidate storage directories built from the host's base locations.
use vstd::prelude::*;
use crate::error::StorageError;
use crate::paths::{join, join_spec};

verus! {

/// Subdirectory of the application's own storage under each user location.
pub open spec fn app_dir_name_spec() -> Seq<char> {
    seq!['l', 'o', 'c', 'a', 'l', 'd', 'b']
}

/// Subdirectory used under the process working directory.
pub open spec fn work_dir_name_spec() -> Seq<char> {
    seq!['d', 'a', 't', 'a']
}

pub fn app_dir_name() -> (r: &'static str)
    ensures
        r@ == app_dir_name_spec(),
{
    let r = "localdb";
    proof {
        reveal_strlit("localdb");
        assert(r@ =~= app_dir_name_spec());
    }
    r
}

pub fn work_dir_name() -> (r: &'static str)
    ensures
        r@ == work_dir_name_spec(),
{
    let r = "data";
    proof {
        reveal_strlit("data");
        assert(r@ =~= work_dir_name_spec());
    }
    r
}

/// The four base locations the host may resolve; `None` where it failed to.
#[derive(Debug)]
pub struct BaseLocations {
    pub app_data: Option<String>,
    pub documents: Option<String>,
    pub home: Option<String>,
    pub working_dir: Option<String>,
}

/// The candidates one base contributes: the base itself, then the base joined
/// with `sub`; nothing when the base is unresolved.
pub open spec fn entry_spec(base: Option<String>, sub: Seq<char>) -> Seq<Seq<char>> {
    match base {
        Some(b) => seq![b@, join_spec(b@, sub)],
        None => Seq::empty(),
    }
}

/// The ordered candidate storage directories for the given bases.
pub open spec fn candidates_spec(b: BaseLocations) -> Seq<Seq<char>> {
    entry_spec(b.app_data, app_dir_name_spec())
        + entry_spec(b.documents, app_dir_name_spec())
        + entry_spec(b.home, app_dir_name_spec())
        + entry_spec(b.working_dir, work_dir_name_spec())
}

pub open spec fn views(v: Seq<String>) -> Seq<Seq<char>> {
    v.map_values(|s: String| s@)
}

fn push_entry(out: &mut Vec<String>, base: &Option<String>, sub: &str)
    ensures
        views(final(out)@) == views(old(out)@) + entry_spec(*base, sub@),
{
    let ghost before = views(out@);
    match base {
        Some(b) => {
            out.push(b.clone());
            out.push(join(b.as_str(), sub));
        },
        None => {},
    }
    assert(views(out@) =~= before + entry_spec(*base, sub@));
}

/// Lists the candidate storage directories in the order callers try them:
/// for each resolved base, the base and then its storage subdirectory.
/// Unresolved bases are skipped; nothing is checked on disk.
pub fn list_candidate_directories(bases: &BaseLocations) -> (r: Vec<String>)
    ensures
        views(r@) == candidates_spec(*bases),
        bases.app_data is None && bases.documents is None && bases.home is None
            && bases.working_dir is None ==> r@.len() == 0,
{
    let mut out: Vec<String> = Vec::new();
    assert(views(out@) =~= Seq::<Seq<char>>::empty());
    push_entry(&mut out, &bases.app_data, app_dir_name());
    push_entry(&mut out, &bases.documents, app_dir_name());
    push_entry(&mut out, &bases.home, app_dir_name());
    push_entry(&mut out, &bases.working_dir, work_dir_name());
    assert(views(out@) =~= candidates_spec(*bases));
    out
}

/// The application's storage directory: the application-data directory
/// joined with the storage subdirectory; an error when it is unresolved.
pub fn get_storage_dir_path(app_data: &Option<String>) -> (r: Result<String, StorageError>)
    ensures
        match app_data {
            Some(d) => r matches Ok(p) && p@ == join_spec(d@, app_dir_name_spec()),
            None => r matches Err(StorageError::Unresolved),
        },
{
    match app_data {
        Some(d) => Ok(join(d.as_str(), app_dir_name())),
        None => Err(StorageError::Unresolved),
    }
}

} // verus!
