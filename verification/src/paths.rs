//! Canonical filesystem paths used by the supervisor: the state path
//! resolved from configuration, and the fixed layout beneath it.
use vstd::prelude::*;
use vstd::string::*;
use crate::ident::ServiceGroup;

verus! {

/// The default root under which every supervisor state directory lives.
pub fn state_path_prefix() -> (r: String)
    ensures
        r@ == "/hab/sup"@,
{
    String::from_str("/hab/sup")
}

/// Joins `base` and `child` with a single path separator.
pub fn join_path(base: &str, child: &str) -> (r: String)
    ensures
        r@ == base@ + "/"@ + child@,
{
    let mut r = String::from_str(base);
    r.append("/");
    r.append(child);
    r
}

/// Configuration handed to the manager at startup. Listen addresses and
/// peers are carried as plain address strings.
pub struct ManagerConfig {
    pub gossip_listen: String,
    pub http_listen: String,
    pub gossip_peers: Vec<String>,
    pub gossip_permanent: bool,
    pub ring: Option<String>,
    pub name: Option<String>,
    pub custom_state_path: Option<String>,
    pub organization: Option<String>,
}

impl Default for ManagerConfig {
    fn default() -> (r: Self)
        ensures
            r.gossip_listen@ == Seq::<char>::empty(),
            r.http_listen@ == Seq::<char>::empty(),
            r.gossip_peers@.len() == 0,
            r.gossip_permanent == false,
            r.ring is None,
            r.name is None,
            r.custom_state_path is None,
            r.organization is None,
    {
        ManagerConfig {
            gossip_listen: String::new(),
            http_listen: String::new(),
            gossip_peers: Vec::new(),
            gossip_permanent: false,
            ring: None,
            name: None,
            custom_state_path: None,
            organization: None,
        }
    }
}

/// What resolving the state path must return: the custom path when one is
/// set, otherwise `<prefix>/<name>`, otherwise `<prefix>/default`.
pub open spec fn spec_state_path(custom: Option<Seq<char>>, name: Option<Seq<char>>) -> Seq<
    char,
> {
    match custom {
        Some(c) => c,
        None => match name {
            Some(n) => "/hab/sup"@ + "/"@ + n,
            None => "/hab/sup"@ + "/"@ + "default"@,
        },
    }
}

/// Filesystem paths the manager persists data under, all derived from one
/// supervisor state root.
pub struct FsCfg {
    pub data_path: String,
    pub butterfly_data_path: String,
    pub census_data_path: String,
    pub services_data_path: String,
    pub specs_path: String,
    pub proc_lock_file: String,
}

impl FsCfg {
    /// Lays the fixed file layout out beneath `sup_svc_root`.
    pub fn new(sup_svc_root: &str) -> (r: Self)
        ensures
            r.data_path@ == sup_svc_root@ + "/"@ + "data"@,
            r.butterfly_data_path@ == r.data_path@ + "/"@ + "butterfly.dat"@,
            r.census_data_path@ == r.data_path@ + "/"@ + "census.dat"@,
            r.services_data_path@ == r.data_path@ + "/"@ + "services.dat"@,
            r.specs_path@ == sup_svc_root@ + "/"@ + "specs"@,
            r.proc_lock_file@ == sup_svc_root@ + "/"@ + "LOCK"@,
    {
        let data_path = join_path(sup_svc_root, "data");
        FsCfg {
            butterfly_data_path: join_path(data_path.as_str(), "butterfly.dat"),
            census_data_path: join_path(data_path.as_str(), "census.dat"),
            services_data_path: join_path(data_path.as_str(), "services.dat"),
            specs_path: join_path(sup_svc_root, "specs"),
            proc_lock_file: join_path(sup_svc_root, "LOCK"),
            data_path,
        }
    }

    /// Path of the cached health-check result for one service group's
    /// service.
    pub fn health_check_cache(&self, service_group: &ServiceGroup) -> (r: String)
        ensures
            r@ == self.data_path@ + "/"@ + service_group.service@ + ".health"@,
    {
        let mut r = join_path(self.data_path.as_str(), service_group.service.as_str());
        r.append(".health");
        r
    }
}

} // verus!
