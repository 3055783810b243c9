//! The storage layer: one capability-qualified contract with two
//! interchangeable engines — a flat serialized file and a relational
//! database — plus the path resolution they share.

use vstd::prelude::*;

use crate::command::SearchEngine;
use crate::model::{Entity, StorageError};

pub mod file;
pub mod sqlite;

pub use file::FileStorage;
pub use sqlite::SqliteStorage;

verus! {

/// Relies on `home::home_dir`: resolves the user's home directory; which
/// directory that is depends on the machine and its environment.
#[verifier::external_body]
fn home_dir_string() -> (r: Option<String>) {
    home::home_dir().map(|p| p.to_string_lossy().to_string())
}

/// The default storage directory: `.laravel` under the user's home.
pub fn default_storage_dir() -> (r: Result<String, StorageError>)
    ensures
        r matches Ok(s) ==> exists|h: Seq<char>| s@ == h + "/.laravel"@,
        r matches Err(e) ==> e is PathResolution,
{
    match home_dir_string() {
        Option::Some(h) => {
            let ghost hv = h@;
            let d = h.concat("/.laravel");
            proof {
                assert(d@ == hv + "/.laravel"@);
            }
            Ok(d)
        },
        Option::None => Err(
            StorageError::PathResolution(String::from_str("Failed to get home directory")),
        ),
    }
}

/// Joins the storage file name onto the configured directory, or onto the
/// default directory when none is configured. (Whether the directory
/// exists, and creating the default one, is the caller's concern: this
/// library does not touch the file system.)
pub fn normalize_path(suffix: String, path: Option<String>) -> (r: Result<String, StorageError>)
    ensures
        match path {
            Option::Some(p) => r matches Ok(s) && s@ == p@ + "/"@ + suffix@,
            Option::None => r matches Ok(s) ==> exists|h: Seq<char>|
                s@ == h + "/.laravel/"@ + suffix@,
        },
        r matches Err(e) ==> e is PathResolution,
{
    match path {
        Option::Some(p) => {
            let ghost pv = p@;
            let joined = p.concat("/").concat(suffix.as_str());
            proof {
                assert(joined@ == pv + "/"@ + suffix@);
            }
            Ok(joined)
        },
        Option::None => {
            match default_storage_dir() {
                Ok(d) => {
                    let ghost hv = choose|h: Seq<char>| d@ == h + "/.laravel"@;
                    let joined = d.concat("/").concat(suffix.as_str());
                    proof {
                        reveal_strlit("/.laravel");
                        reveal_strlit("/.laravel/");
                        reveal_strlit("/");
                        assert(("/.laravel"@ + "/"@) =~= "/.laravel/"@);
                        assert(joined@ =~= hv + "/.laravel/"@ + suffix@);
                    }
                    Ok(joined)
                },
                Err(e) => Err(e),
            }
        },
    }
}

/// The storage contract both engines meet: a capability flag tells callers
/// whether keyword search can succeed, so a known-incapable engine is a
/// branch, not a surprise failure.
pub trait Storage: Sized {
    /// Whether this engine implements keyword search.
    spec fn spec_supports_search(&self) -> bool;

    /// Reports whether `search` can succeed on this engine.
    fn supports_search(&self) -> (b: bool)
        ensures
            b == self.spec_supports_search(),
    ;

    /// The path of the engine's backing file.
    fn path(&self) -> Result<String, StorageError>;

    /// Entities whose title or content contains the keyword as a substring.
    /// An engine without the capability reports the unsupported error —
    /// never a crash, and never an empty success.
    fn search(&self, keyword: &str, group: Option<&str>) -> (r: Result<Vec<Entity>, StorageError>)
        ensures
            !self.spec_supports_search() ==> (r matches Err(e)
                && e matches StorageError::Unsupported(_)),
    ;
}

/// The engine selected for a run: a closed set of two variants behind the
/// shared contract.
pub enum SelectedStorage {
    File(FileStorage),
    Sqlite(SqliteStorage),
}

/// Selects the storage engine: the flat-file engine only on explicit
/// request, the relational engine otherwise.
pub fn new_storage(engin: Option<SearchEngine>, path: Option<String>) -> (s: SelectedStorage)
    ensures
        match engin {
            Option::Some(SearchEngine::File) => s matches SelectedStorage::File(f) && f.path == path
                && f.suffix is None,
            _ => s matches SelectedStorage::Sqlite(q) && q.path == path,
        },
{
    match engin {
        Option::Some(SearchEngine::File) => SelectedStorage::File(FileStorage::new(path, None)),
        _ => SelectedStorage::Sqlite(SqliteStorage::new(path)),
    }
}

impl Storage for SelectedStorage {
    open spec fn spec_supports_search(&self) -> bool {
        self matches SelectedStorage::Sqlite(_)
    }

    fn supports_search(&self) -> (b: bool) {
        match self {
            SelectedStorage::File(_) => false,
            SelectedStorage::Sqlite(_) => true,
        }
    }

    fn path(&self) -> Result<String, StorageError> {
        match self {
            SelectedStorage::File(f) => f.path(),
            SelectedStorage::Sqlite(q) => q.path(),
        }
    }

    fn search(&self, keyword: &str, group: Option<&str>) -> (r: Result<Vec<Entity>, StorageError>) {
        match self {
            SelectedStorage::File(f) => f.search(keyword, group),
            SelectedStorage::Sqlite(q) => q.search(keyword, group),
        }
    }
}

} // verus!
