//! Reply decisions of the build scheduler's dispatcher. The transport
//! and the data store are collaborators; what each handler replies for
//! a given request and store answer is decided and verified here.
use vstd::prelude::*;
use vstd::string::*;
use crate::paths::join_path;

verus! {

/// Stable protocol error codes the dispatcher replies with.
#[derive(Clone, Copy, PartialEq, Eq, Structural, Debug)]
pub enum ErrCode {
    EntityNotFound,
}

/// An error reply: a code and a stable human-readable tag.
#[derive(Debug)]
pub struct NetErr {
    pub code: ErrCode,
    pub msg: String,
}

/// The data store failed to answer.
#[derive(Clone, Copy, PartialEq, Eq, Structural, Debug)]
pub struct StoreError;

#[derive(Clone, Copy, PartialEq, Eq, Structural, Debug)]
pub enum GroupState {
    Pending,
    Complete,
}

/// One project scheduled within a group: its name and the identifier of
/// the package to build.
#[derive(Debug)]
pub struct Project {
    pub name: String,
    pub ident: String,
}

/// A scheduled group of builds.
#[derive(Debug)]
pub struct Group {
    pub id: u64,
    pub state: GroupState,
    pub projects: Vec<Project>,
}

/// What the group-create handler decides.
#[derive(Debug)]
pub enum GroupCreateDecision {
    /// The requested project is not in the graph: reply with the error.
    NotFound(NetErr),
    /// Nothing needs building: reply at once with an empty, complete
    /// group.
    CompleteEmpty(Group),
    /// Ask the store to create a group over these projects and notify
    /// the work queue, then reply with the created group.
    Create(Vec<Project>),
}

/// The projects a group-create request schedules: the root project
/// itself unless only dependents were asked for, then every reverse
/// dependency the graph reported.
pub open spec fn spec_group_projects(
    origin: Seq<char>,
    package: Seq<char>,
    deps_only: bool,
    resolved: Seq<char>,
    rdeps: Seq<(Seq<char>, Seq<char>)>,
) -> Seq<(Seq<char>, Seq<char>)> {
    let root: Seq<(Seq<char>, Seq<char>)> = if deps_only {
        Seq::empty()
    } else {
        seq![(origin + "/"@ + package, resolved)]
    };
    root + rdeps
}

/// The value of a project list.
pub open spec fn spec_projects_view(ps: Seq<Project>) -> Seq<(Seq<char>, Seq<char>)> {
    ps.map_values(|p: Project| (p.name@, p.ident@))
}

/// Decides a group-create request. `resolved` is the graph's answer for
/// the root project, `rdeps` the reverse dependencies it reported (with
/// `None` meaning the graph had no entry).
pub fn group_create(
    origin: &String,
    package: &String,
    deps_only: bool,
    resolved: Option<String>,
    rdeps: Option<Vec<(String, String)>>,
) -> (r: GroupCreateDecision)
    ensures
        match resolved {
            None => (r matches GroupCreateDecision::NotFound(e) && e.code == ErrCode::EntityNotFound
                && e.msg@ == "sc:group-create:1"@),
            Some(ident) => {
                let projects = spec_group_projects(
                    origin@,
                    package@,
                    deps_only,
                    ident@,
                    match rdeps {
                        Some(ds) => ds@.map_values(|d: (String, String)| (d.0@, d.1@)),
                        None => Seq::empty(),
                    },
                );
                if projects.len() == 0 {
                    (r matches GroupCreateDecision::CompleteEmpty(g) && g.id == 0 && g.state
                        == GroupState::Complete && g.projects@.len() == 0)
                } else {
                    (r matches GroupCreateDecision::Create(ps) && spec_projects_view(ps@)
                        == projects)
                }
            },
        },
{
    match resolved {
        None => GroupCreateDecision::NotFound(
            NetErr { code: ErrCode::EntityNotFound, msg: String::from_str("sc:group-create:1") },
        ),
        Some(ident) => {
            let ghost rdeps_view: Seq<(Seq<char>, Seq<char>)> = match &rdeps {
                Some(ds) => ds@.map_values(|d: (String, String)| (d.0@, d.1@)),
                None => Seq::empty(),
            };
            let ghost target = spec_group_projects(
                origin@,
                package@,
                deps_only,
                ident@,
                rdeps_view,
            );
            let mut projects: Vec<Project> = Vec::new();
            if !deps_only {
                let project_name = join_path(origin.as_str(), package.as_str());
                projects.push(Project { name: project_name, ident });
            }
            proof {
                assert(spec_projects_view(projects@) =~= target.take(projects@.len() as int));
            }
            match rdeps {
                Some(mut ds) => {
                    let ghost root_len = projects@.len() as int;
                    let ghost orig_ds = ds@;
                    while ds.len() > 0
                        invariant
                            ds@.len() <= orig_ds.len(),
                            projects@.len() as int == root_len + (orig_ds.len() - ds@.len()),
                            root_len + orig_ds.len() == target.len(),
                            ds@ == orig_ds.skip(orig_ds.len() - ds@.len()),
                            spec_projects_view(projects@) == target.take(
                                projects@.len() as int,
                            ),
                            rdeps_view == orig_ds.map_values(|d: (String, String)| (d.0@, d.1@)),
                            target == spec_group_projects(
                                origin@,
                                package@,
                                deps_only,
                                ident@,
                                rdeps_view,
                            ),
                        decreases ds@.len(),
                    {
                        let ghost pre = ds@;
                        let d = ds.remove(0);
                        proof {
                            let k = orig_ds.len() - pre.len();
                            assert(orig_ds.skip(k)[0] == orig_ds[k]);
                            assert(pre[0] == orig_ds[k]);
                            assert(pre.skip(1) =~= ds@);
                            assert(orig_ds.skip(k).skip(1) =~= orig_ds.skip(k + 1));
                        }
                        projects.push(Project { name: d.0, ident: d.1 });
                        proof {
                            assert(spec_projects_view(projects@) =~= target.take(
                                projects@.len() as int,
                            ));
                        }
                    }
                },
                None => {},
            }
            proof {
                assert(spec_projects_view(projects@) =~= target);
            }
            if projects.len() == 0 {
                GroupCreateDecision::CompleteEmpty(
                    Group { id: 0, state: GroupState::Complete, projects: Vec::new() },
                )
            } else {
                GroupCreateDecision::Create(projects)
            }
        },
    }
}

/// Decides a group-get request: the group when the store found one; the
/// stable not-found error when it had none or failed.
pub fn group_get(fetch: Result<Option<Group>, StoreError>) -> (r: Result<Group, NetErr>)
    ensures
        match fetch {
            Ok(Some(g)) => (r matches Ok(rg) && rg == g),
            Ok(None) => (r matches Err(e) && e.code == ErrCode::EntityNotFound && e.msg@
                == "sc:schedule-get:1"@),
            Err(_) => (r matches Err(e) && e.code == ErrCode::EntityNotFound && e.msg@
                == "sc:schedule-get:1"@),
        },
{
    match fetch {
        Ok(Some(g)) => Ok(g),
        _ => Err(
            NetErr { code: ErrCode::EntityNotFound, msg: String::from_str("sc:schedule-get:1") },
        ),
    }
}

/// A package the store recorded, with the dependencies the graph is
/// extended by.
#[derive(Debug)]
pub struct SchedPackage {
    pub ident: String,
    pub deps: Vec<String>,
}

/// Decides a package-create request: the stored package is echoed back
/// to the requester; a store failure propagates.
pub fn package_create(created: Result<SchedPackage, StoreError>) -> (r: Result<
    SchedPackage,
    StoreError,
>)
    ensures
        r == created,
{
    created
}

/// Per-origin package statistics.
#[derive(Clone, Copy, PartialEq, Eq, Structural, Debug)]
pub struct PackageStats {
    pub plans: u64,
    pub builds: u64,
}

/// Decides a package-stats request: the stats when the store answered,
/// the stable not-found error when it failed.
pub fn package_stats_get(fetched: Result<PackageStats, StoreError>) -> (r: Result<
    PackageStats,
    NetErr,
>)
    ensures
        match fetched {
            Ok(stats) => r == Ok::<PackageStats, NetErr>(stats),
            Err(_) => (r matches Err(e) && e.code == ErrCode::EntityNotFound && e.msg@
                == "sc:package-stats-get:1"@),
        },
{
    match fetched {
        Ok(stats) => Ok(stats),
        Err(_) => Err(
            NetErr {
                code: ErrCode::EntityNotFound,
                msg: String::from_str("sc:package-stats-get:1"),
            },
        ),
    }
}

} // verus!
