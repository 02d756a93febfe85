//! The supervisor's error taxonomy. Lock-state ambiguity is kept apart
//! from lock contention so a status query can treat an absent or corrupt
//! lock as "no instance running".
use vstd::prelude::*;
use crate::ident::PackageIdent;

verus! {

/// Everything the supervisor core can fail with.
#[derive(Debug)]
pub enum SupError {
    /// Another live supervisor holds the lock; carries its PID.
    ProcessLocked(u32),
    /// The lock file exists but does not hold a decimal PID.
    ProcessLockCorrupt,
    /// The lock file could not be read or created.
    ProcessLockIO,
    /// The `data/` directory is unusable.
    BadDataPath,
    /// The `specs/` directory is unusable.
    BadSpecsPath,
    /// A single state file is unreadable.
    BadDataFile,
    /// A status query matched no loaded service.
    ServiceNotLoaded(PackageIdent),
}

impl SupError {
    /// A short stable tag for each error kind, for human-readable output.
    pub fn tag(&self) -> (r: &'static str)
        ensures
            (self is ProcessLocked ==> r@ == "process locked"@),
            (self is ProcessLockCorrupt ==> r@ == "process lock corrupt"@),
            (self is ProcessLockIO ==> r@ == "process lock io"@),
            (self is BadDataPath ==> r@ == "bad data path"@),
            (self is BadSpecsPath ==> r@ == "bad specs path"@),
            (self is BadDataFile ==> r@ == "bad data file"@),
            (self is ServiceNotLoaded ==> r@ == "service not loaded"@),
    {
        proof {
            reveal_strlit("process locked");
            reveal_strlit("process lock corrupt");
            reveal_strlit("process lock io");
            reveal_strlit("bad data path");
            reveal_strlit("bad specs path");
            reveal_strlit("bad data file");
            reveal_strlit("service not loaded");
        }
        match self {
            SupError::ProcessLocked(_) => "process locked",
            SupError::ProcessLockCorrupt => "process lock corrupt",
            SupError::ProcessLockIO => "process lock io",
            SupError::BadDataPath => "bad data path",
            SupError::BadSpecsPath => "bad specs path",
            SupError::BadDataFile => "bad data file",
            SupError::ServiceNotLoaded(_) => "service not loaded",
        }
    }
}

} // verus!
