//! A value model of the supervisor's state directory. The manager's
//! decisions are verified against this model; a thin unverified shell
//! mirrors each transition onto the real filesystem.
//!
//! Layout modelled: `LOCK` and `MEMBER_ID` at the root, `data/` holding
//! the three snapshot files (each with its `.tmp` sibling while a write
//! is in flight) and cached health-check results, and `specs/`.
use vstd::prelude::*;

verus! {

/// The supervisor state directory as a value.
pub struct StateDir {
    /// Content of the `LOCK` file, when it exists.
    pub lock: Option<Vec<u8>>,
    /// Content of the `MEMBER_ID` file, when it exists.
    pub member_id: Option<Vec<u8>>,
    /// Whether `data/` exists.
    pub data_dir: bool,
    /// Whether `specs/` exists.
    pub specs_dir: bool,
    pub butterfly_dat: Option<Vec<u8>>,
    pub butterfly_tmp: Option<Vec<u8>>,
    pub census_dat: Option<Vec<u8>>,
    pub census_tmp: Option<Vec<u8>>,
    pub services_dat: Option<Vec<u8>>,
    pub services_tmp: Option<Vec<u8>>,
    /// Cached health-check results, one per service name.
    pub health_files: Vec<(String, Vec<u8>)>,
}

impl StateDir {
    /// A directory that does not exist yet.
    pub fn empty() -> (r: StateDir)
        ensures
            r.lock is None,
            r.member_id is None,
            !r.data_dir,
            !r.specs_dir,
            r.butterfly_dat is None,
            r.butterfly_tmp is None,
            r.census_dat is None,
            r.census_tmp is None,
            r.services_dat is None,
            r.services_tmp is None,
            r.health_files@.len() == 0,
    {
        StateDir {
            lock: None,
            member_id: None,
            data_dir: false,
            specs_dir: false,
            butterfly_dat: None,
            butterfly_tmp: None,
            census_dat: None,
            census_tmp: None,
            services_dat: None,
            services_tmp: None,
            health_files: Vec::new(),
        }
    }

    /// No snapshot write is in flight: every `.tmp` sibling is absent.
    pub open spec fn no_tmp_files(self) -> bool {
        &&& self.butterfly_tmp is None
        &&& self.census_tmp is None
        &&& self.services_tmp is None
    }
}

/// Creates `data/` and `specs/` beneath the state path; both creations
/// are idempotent and touch nothing else.
pub fn create_state_path_dirs(dir: &mut StateDir)
    ensures
        final(dir).data_dir,
        final(dir).specs_dir,
        final(dir).lock == old(dir).lock,
        final(dir).member_id == old(dir).member_id,
        final(dir).butterfly_dat == old(dir).butterfly_dat,
        final(dir).butterfly_tmp == old(dir).butterfly_tmp,
        final(dir).census_dat == old(dir).census_dat,
        final(dir).census_tmp == old(dir).census_tmp,
        final(dir).services_dat == old(dir).services_dat,
        final(dir).services_tmp == old(dir).services_tmp,
        final(dir).health_files == old(dir).health_files,
{
    dir.data_dir = true;
    dir.specs_dir = true;
}

/// Sweeps stale `*.tmp` and `*.health` files out of `data/`, leaving the
/// snapshot files themselves alone.
pub fn clean_dirty_state(dir: &mut StateDir)
    requires
        old(dir).data_dir,
    ensures
        final(dir).no_tmp_files(),
        final(dir).health_files@.len() == 0,
        final(dir).lock == old(dir).lock,
        final(dir).member_id == old(dir).member_id,
        final(dir).data_dir == old(dir).data_dir,
        final(dir).specs_dir == old(dir).specs_dir,
        final(dir).butterfly_dat == old(dir).butterfly_dat,
        final(dir).census_dat == old(dir).census_dat,
        final(dir).services_dat == old(dir).services_dat,
{
    dir.butterfly_tmp = None;
    dir.census_tmp = None;
    dir.services_tmp = None;
    dir.health_files = Vec::new();
}

/// Copies a byte buffer.
pub fn copy_bytes(src: &Vec<u8>) -> (r: Vec<u8>)
    ensures
        r@ == src@,
{
    let mut r: Vec<u8> = Vec::new();
    let mut i: usize = 0;
    while i < src.len()
        invariant
            i <= src@.len(),
            r@ == src@.take(i as int),
        decreases src@.len() - i,
    {
        r.push(src[i]);
        assert(r@ =~= src@.take(i + 1));
        i = i + 1;
    }
    assert(r@ =~= src@);
    r
}

/// Reads the member identifier, creating the file with `fresh_id` on
/// first boot. Returns the identifier the supervisor must use.
pub fn load_member(dir: &mut StateDir, fresh_id: Vec<u8>) -> (r: Vec<u8>)
    ensures
        match old(dir).member_id {
            Some(existing) => r@ == existing@ && final(dir).member_id == old(dir).member_id,
            None => r@ == fresh_id@ && final(dir).member_id == Some(fresh_id),
        },
        final(dir).lock == old(dir).lock,
        final(dir).data_dir == old(dir).data_dir,
        final(dir).specs_dir == old(dir).specs_dir,
        final(dir).butterfly_dat == old(dir).butterfly_dat,
        final(dir).butterfly_tmp == old(dir).butterfly_tmp,
        final(dir).census_dat == old(dir).census_dat,
        final(dir).census_tmp == old(dir).census_tmp,
        final(dir).services_dat == old(dir).services_dat,
        final(dir).services_tmp == old(dir).services_tmp,
        final(dir).health_files == old(dir).health_files,
{
    match &dir.member_id {
        Some(existing) => copy_bytes(existing),
        None => {
            let r = copy_bytes(&fresh_id);
            dir.member_id = Some(fresh_id);
            r
        },
    }
}

/// Writes the butterfly snapshot: the bytes go to the `.tmp` sibling
/// first, which then atomically replaces `butterfly.dat`.
pub fn persist_butterfly_state(dir: &mut StateDir, bytes: Vec<u8>)
    requires
        old(dir).data_dir,
    ensures
        final(dir).butterfly_dat == Some(bytes),
        final(dir).butterfly_tmp is None,
        final(dir).lock == old(dir).lock,
        final(dir).member_id == old(dir).member_id,
        final(dir).data_dir == old(dir).data_dir,
        final(dir).specs_dir == old(dir).specs_dir,
        final(dir).census_dat == old(dir).census_dat,
        final(dir).census_tmp == old(dir).census_tmp,
        final(dir).services_dat == old(dir).services_dat,
        final(dir).services_tmp == old(dir).services_tmp,
        final(dir).health_files == old(dir).health_files,
{
    dir.butterfly_tmp = Some(bytes);
    dir.butterfly_dat = dir.butterfly_tmp.take();
}

/// Writes the census snapshot, tmp-then-rename as above.
pub fn persist_census_state(dir: &mut StateDir, bytes: Vec<u8>)
    requires
        old(dir).data_dir,
    ensures
        final(dir).census_dat == Some(bytes),
        final(dir).census_tmp is None,
        final(dir).lock == old(dir).lock,
        final(dir).member_id == old(dir).member_id,
        final(dir).data_dir == old(dir).data_dir,
        final(dir).specs_dir == old(dir).specs_dir,
        final(dir).butterfly_dat == old(dir).butterfly_dat,
        final(dir).butterfly_tmp == old(dir).butterfly_tmp,
        final(dir).services_dat == old(dir).services_dat,
        final(dir).services_tmp == old(dir).services_tmp,
        final(dir).health_files == old(dir).health_files,
{
    dir.census_tmp = Some(bytes);
    dir.census_dat = dir.census_tmp.take();
}

/// Writes the services snapshot, tmp-then-rename as above.
pub fn persist_services_state(dir: &mut StateDir, bytes: Vec<u8>)
    requires
        old(dir).data_dir,
    ensures
        final(dir).services_dat == Some(bytes),
        final(dir).services_tmp is None,
        final(dir).lock == old(dir).lock,
        final(dir).member_id == old(dir).member_id,
        final(dir).data_dir == old(dir).data_dir,
        final(dir).specs_dir == old(dir).specs_dir,
        final(dir).butterfly_dat == old(dir).butterfly_dat,
        final(dir).butterfly_tmp == old(dir).butterfly_tmp,
        final(dir).census_dat == old(dir).census_dat,
        final(dir).census_tmp == old(dir).census_tmp,
        final(dir).health_files == old(dir).health_files,
{
    dir.services_tmp = Some(bytes);
    dir.services_dat = dir.services_tmp.take();
}

/// Reads the services snapshot as a status reader would.
pub fn read_services_dat(dir: &StateDir) -> (r: Option<&Vec<u8>>)
    ensures
        match r {
            Some(b) => dir.services_dat == Some(*b),
            None => dir.services_dat is None,
        },
{
    dir.services_dat.as_ref()
}

} // verus!
