//! Where bundles, icons and menu entries are kept.
use vstd::prelude::*;

use crate::text::{chars_of, join_path, path_join, same_chars};

verus! {

/// Whether the process runs inside an application sandbox, where the
/// desktop's shared menu cannot be written.
#[derive(PartialEq, Eq, Structural, Clone, Copy, Debug)]
pub enum EnvMode {
    Sandboxed,
    Unrestricted,
}

/// The value of the container-type variable that names the sandbox.
pub open spec fn sandbox_container_name() -> Seq<char> {
    seq!['f', 'l', 'a', 't', 'p', 'a', 'k']
}

/// The mode, from whether the sandbox's own variable is set and from the
/// container-type variable, where it is set.
pub fn detect_mode(sandbox_id_set: bool, container: Option<&str>) -> (r: EnvMode)
    ensures
        (r == EnvMode::Sandboxed) == (sandbox_id_set || match container {
            Some(c) => c@ == sandbox_container_name(),
            None => false,
        }),
{
    if sandbox_id_set {
        return EnvMode::Sandboxed;
    }
    match container {
        Some(c) => {
            let word = vec!['f', 'l', 'a', 't', 'p', 'a', 'k'];
            if same_chars(&chars_of(c), &word) {
                EnvMode::Sandboxed
            } else {
                EnvMode::Unrestricted
            }
        },
        None => EnvMode::Unrestricted,
    }
}

/// The two directories the registry writes into.
#[derive(Debug)]
pub struct StorageDirs {
    /// Bundles and their icons.
    pub storage: String,
    /// Menu entries.
    pub apps: String,
}

/// Why the directories could not be found.
#[derive(PartialEq, Eq, Structural, Clone, Copy, Debug)]
pub enum LocateError {
    DataDirMissing,
    HomeMissing,
}

impl LocateError {
    /// The message shown for this error.
    pub fn message(&self) -> (r: String)
        ensures
            r@ == match self {
                LocateError::DataDirMissing => "XDG data dir not found"@,
                LocateError::HomeMissing => "HOME not found"@,
            },
    {
        match self {
            LocateError::DataDirMissing => String::from_str("XDG data dir not found"),
            LocateError::HomeMissing => String::from_str("HOME not found"),
        }
    }
}

pub open spec fn storage_dir_of(data: Seq<char>) -> Seq<char> {
    path_join(data, "axec/appimages"@)
}

pub open spec fn apps_dir_of(mode: EnvMode, data: Seq<char>, home: Seq<char>) -> Seq<char> {
    match mode {
        EnvMode::Sandboxed => path_join(data, "applications"@),
        EnvMode::Unrestricted => path_join(home, ".local/share/applications"@),
    }
}

/// The storage and menu directories, under the user's data directory and, out
/// of the sandbox, the home directory. The caller creates them.
pub fn resolve_dirs(mode: EnvMode, data_dir: Option<&str>, home_dir: Option<&str>) -> (r: Result<
    StorageDirs,
    LocateError,
>)
    ensures
        match data_dir {
            None => r == Err::<StorageDirs, LocateError>(LocateError::DataDirMissing),
            Some(d) => match (mode, home_dir) {
                (EnvMode::Unrestricted, None) => r == Err::<StorageDirs, LocateError>(
                    LocateError::HomeMissing,
                ),
                _ => r matches Ok(s) && s.storage@ == storage_dir_of(d@) && s.apps@ == apps_dir_of(
                    mode,
                    d@,
                    match home_dir {
                        Some(h) => h@,
                        None => Seq::empty(),
                    },
                ),
            },
        },
{
    let data = match data_dir {
        Some(d) => d,
        None => return Err(LocateError::DataDirMissing),
    };
    let storage = join_path(data, "axec/appimages");
    let apps = match mode {
        EnvMode::Sandboxed => join_path(data, "applications"),
        EnvMode::Unrestricted => match home_dir {
            Some(h) => join_path(h, ".local/share/applications"),
            None => return Err(LocateError::HomeMissing),
        },
    };
    Ok(StorageDirs { storage, apps })
}

} // verus!
