//! The manager: the tick-driven orchestrator. Everything the run loop
//! decides is verified here over value models; a thin shell performs
//! the process, gossip and filesystem actions those decisions call for.
use vstd::prelude::*;
use vstd::string::*;
use crate::census::CensusRing;
use crate::census::ElectionRumor;
use crate::census::Member;
use crate::census::ServiceRumor;
use crate::census::ServiceRumorView;
use crate::census::rumor_key_lt;
use crate::census::spec_me;
use crate::census::store_sorted;
use crate::errors::SupError;
use crate::fsstate::StateDir;
use crate::fsstate::clean_dirty_state;
use crate::fsstate::create_state_path_dirs;
use crate::fsstate::load_member;
use crate::ident::PackageIdent;
use crate::ident::ident_text;
use crate::paths::FsCfg;
use crate::paths::ManagerConfig;
use crate::paths::join_path;
use crate::paths::spec_state_path;
use crate::paths::state_path_prefix;
use crate::pidlock::obtain_process_lock;
use crate::pidlock::read_process_lock;
use crate::pidlock::spec_lock_content;
use crate::pidlock::spec_read_lock;
use crate::service::DesiredState;
use crate::service::ProcessState;
use crate::service::Service;
use crate::service::ServiceSpec;
use crate::service::StartStyle;
use crate::service::Supervisor;
use crate::service::Topology;
use crate::service::UpdateStrategy;

verus! {

/// What the spec watcher reports for one tick: a spec appeared or
/// changed, or a spec disappeared (a `desired_state = Down` spec counts
/// as a removal).
pub enum SpecWatcherEvent {
    AddService(ServiceSpec),
    RemoveService(ServiceSpec),
}

/// A signal delivered to the supervisor process.
#[derive(Clone, Copy, PartialEq, Eq, Structural, Debug)]
pub enum SignalEvent {
    Shutdown,
    Passthrough(u32),
}

/// The gossip server's stores as the manager's decisions see them.
pub struct GossipState {
    /// This supervisor's member key.
    pub member_id: u64,
    pub service_store: Vec<ServiceRumor>,
    pub election_store: Vec<ElectionRumor>,
    pub update_store: Vec<ElectionRumor>,
    pub member_list: Vec<Member>,
    /// Groups for which this node has asked the gossip layer to run an
    /// election.
    pub elections_started: Vec<u64>,
    /// How often this node has asked the gossip layer to restart any
    /// stalled elections.
    pub elections_restarted: u64,
}

/// The first index holding a rumor keyed `(group, member)`, if any.
pub open spec fn spec_find_rumor(s: Seq<ServiceRumorView>, group: u64, member: u64) -> Option<int>
    decreases s.len(),
{
    if s.len() == 0 {
        None
    } else if s[0].group == group && s[0].member == member {
        Some(0int)
    } else {
        match spec_find_rumor(s.skip(1), group, member) {
            Some(i) => Some(i + 1),
            None => None,
        }
    }
}

/// The position a rumor keyed `(group, member)` belongs at: the first
/// index whose key is not below it.
pub open spec fn spec_rumor_pos(s: Seq<ServiceRumorView>, group: u64, member: u64) -> int
    decreases s.len(),
{
    if s.len() == 0 {
        0
    } else if s[0].group < group || (s[0].group == group && s[0].member < member) {
        1 + spec_rumor_pos(s.skip(1), group, member)
    } else {
        0
    }
}

/// The rumor stored under `(group, member)`, if any.
pub open spec fn spec_lookup_rumor(s: Seq<ServiceRumorView>, group: u64, member: u64) -> Option<
    ServiceRumorView,
> {
    match spec_find_rumor(s, group, member) {
        Some(i) => Some(s[i]),
        None => None,
    }
}

/// How one insert changes the store: the rumor replaces the one under
/// its key, or is spliced in at its key's position.
pub open spec fn spec_store_insert(s: Seq<ServiceRumorView>, r: ServiceRumorView) -> Seq<
    ServiceRumorView,
> {
    match spec_find_rumor(s, r.group, r.member) {
        Some(i) => s.update(i, r),
        None => s.insert(spec_rumor_pos(s, r.group, r.member), r),
    }
}

proof fn lemma_find_rumor_some(s: Seq<ServiceRumorView>, g: u64, m: u64)
    requires
        spec_find_rumor(s, g, m) is Some,
    ensures
        ({
            let i = spec_find_rumor(s, g, m).unwrap();
            0 <= i < s.len() && s[i].group == g && s[i].member == m
        }),
    decreases s.len(),
{
    if s.len() == 0 {
    } else if s[0].group == g && s[0].member == m {
    } else {
        lemma_find_rumor_some(s.skip(1), g, m);
        let i0 = spec_find_rumor(s.skip(1), g, m).unwrap();
        assert(s.skip(1)[i0] == s[i0 + 1]);
    }
}

proof fn lemma_find_rumor_none(s: Seq<ServiceRumorView>, g: u64, m: u64)
    requires
        spec_find_rumor(s, g, m) is None,
    ensures
        forall|k: int| 0 <= k < s.len() ==> !((#[trigger] s[k]).group == g && s[k].member == m),
    decreases s.len(),
{
    if s.len() > 0 {
        lemma_find_rumor_none(s.skip(1), g, m);
        assert forall|k: int|
            0 <= k < s.len() implies !((#[trigger] s[k]).group == g && s[k].member == m) by {
            if k > 0 {
                assert(s.skip(1)[k - 1] == s[k]);
            }
        }
    }
}

/// Everything before a key's position sits strictly below the key, and
/// the element at the position (if any) does not.
proof fn lemma_rumor_pos_props(s: Seq<ServiceRumorView>, g: u64, m: u64)
    ensures
        0 <= spec_rumor_pos(s, g, m) <= s.len(),
        forall|k: int|
            0 <= k < spec_rumor_pos(s, g, m) ==> ((#[trigger] s[k]).group < g || (s[k].group == g
                && s[k].member < m)),
        spec_rumor_pos(s, g, m) < s.len() ==> ({
            let p = spec_rumor_pos(s, g, m);
            !(s[p].group < g || (s[p].group == g && s[p].member < m))
        }),
    decreases s.len(),
{
    if s.len() == 0 {
    } else if s[0].group < g || (s[0].group == g && s[0].member < m) {
        lemma_rumor_pos_props(s.skip(1), g, m);
        let p0 = spec_rumor_pos(s.skip(1), g, m);
        assert forall|k: int|
            0 <= k < spec_rumor_pos(s, g, m) implies ((#[trigger] s[k]).group < g || (s[k].group
                == g && s[k].member < m)) by {
            if k > 0 {
                assert(s.skip(1)[k - 1] == s[k]);
            }
        }
        if p0 < s.skip(1).len() {
            assert(s.skip(1)[p0] == s[p0 + 1]);
        }
    } else {
    }
}

proof fn lemma_find_rumor_first(s: Seq<ServiceRumorView>, g: u64, m: u64)
    requires
        spec_find_rumor(s, g, m) is Some,
    ensures
        forall|k: int|
            0 <= k < spec_find_rumor(s, g, m).unwrap() ==> !((#[trigger] s[k]).group == g
                && s[k].member == m),
    decreases s.len(),
{
    if s.len() == 0 {
    } else if s[0].group == g && s[0].member == m {
    } else {
        lemma_find_rumor_first(s.skip(1), g, m);
        lemma_find_rumor_some(s.skip(1), g, m);
        assert forall|k: int|
            0 <= k < spec_find_rumor(s, g, m).unwrap() implies !((#[trigger] s[k]).group == g
                && s[k].member == m) by {
            if k > 0 {
                assert(0 <= k - 1 < s.skip(1).len());
                assert(s.skip(1)[k - 1] == s[k]);
            }
        }
    }
}

proof fn lemma_find_rumor_at(s: Seq<ServiceRumorView>, g: u64, m: u64, i: int)
    requires
        0 <= i <= s.len(),
        forall|k: int| 0 <= k < i ==> !((#[trigger] s[k]).group == g && s[k].member == m),
        i == s.len() || (s[i].group == g && s[i].member == m),
    ensures
        i < s.len() ==> spec_find_rumor(s, g, m) == Some(i),
        i == s.len() ==> spec_find_rumor(s, g, m) is None,
    decreases i,
{
    if i == 0 {
    } else {
        assert(forall|k: int| 0 <= k < i - 1 ==> s.skip(1)[k] == s[k + 1]);
        if i < s.len() {
            assert(s.skip(1)[i - 1] == s[i]);
        }
        lemma_find_rumor_at(s.skip(1), g, m, i - 1);
    }
}

/// What a store insert does to lookups: the inserted key now holds the
/// rumor, and every other key reads as before.
proof fn lemma_lookup_after_insert(s: Seq<ServiceRumorView>, r: ServiceRumorView, g: u64, m: u64)
    ensures
        (g == r.group && m == r.member) ==> spec_lookup_rumor(spec_store_insert(s, r), g, m)
            == Some(r),
        !(g == r.group && m == r.member) ==> spec_lookup_rumor(spec_store_insert(s, r), g, m)
            == spec_lookup_rumor(s, g, m),
{
    let s2 = spec_store_insert(s, r);
    match spec_find_rumor(s, r.group, r.member) {
        Some(i) => {
            lemma_find_rumor_some(s, r.group, r.member);
            lemma_find_rumor_first(s, r.group, r.member);
            assert(s2 =~= s.update(i, r));
            if g == r.group && m == r.member {
                lemma_find_rumor_at(s2, g, m, i);
            } else {
                match spec_find_rumor(s, g, m) {
                    Some(j) => {
                        lemma_find_rumor_some(s, g, m);
                        lemma_find_rumor_first(s, g, m);
                        assert forall|k: int|
                            0 <= k < j implies !((#[trigger] s2[k]).group == g && s2[k].member
                                == m) by {
                            if k != i {
                                assert(s2[k] == s[k]);
                            }
                        }
                        assert(s2[j] == s[j]);
                        lemma_find_rumor_at(s2, g, m, j);
                    },
                    None => {
                        lemma_find_rumor_none(s, g, m);
                        assert forall|k: int|
                            0 <= k < s2.len() implies !((#[trigger] s2[k]).group == g
                                && s2[k].member == m) by {
                            if k != i {
                                assert(s2[k] == s[k]);
                            }
                        }
                        lemma_find_rumor_at(s2, g, m, s2.len() as int);
                    },
                }
            }
        },
        None => {
            let p = spec_rumor_pos(s, r.group, r.member);
            lemma_rumor_pos_props(s, r.group, r.member);
            lemma_find_rumor_none(s, r.group, r.member);
            assert(s2 =~= s.insert(p, r));
            if g == r.group && m == r.member {
                assert forall|k: int|
                    0 <= k < p implies !((#[trigger] s2[k]).group == g && s2[k].member == m) by {
                    assert(s2[k] == s[k]);
                }
                assert(s2[p] == r);
                lemma_find_rumor_at(s2, g, m, p);
            } else {
                match spec_find_rumor(s, g, m) {
                    Some(j) => {
                        lemma_find_rumor_some(s, g, m);
                        lemma_find_rumor_first(s, g, m);
                        let j2 = if j < p {
                            j
                        } else {
                            j + 1
                        };
                        assert forall|k: int|
                            0 <= k < j2 implies !((#[trigger] s2[k]).group == g && s2[k].member
                                == m) by {
                            if k < p {
                                assert(s2[k] == s[k]);
                            } else if k == p {
                                assert(s2[k] == r);
                            } else {
                                assert(s2[k] == s[k - 1]);
                            }
                        }
                        assert(s2[j2] == s[j]);
                        lemma_find_rumor_at(s2, g, m, j2);
                    },
                    None => {
                        lemma_find_rumor_none(s, g, m);
                        assert forall|k: int|
                            0 <= k < s2.len() implies !((#[trigger] s2[k]).group == g
                                && s2[k].member == m) by {
                            if k < p {
                                assert(s2[k] == s[k]);
                            } else if k == p {
                                assert(s2[k] == r);
                            } else {
                                assert(s2[k] == s[k - 1]);
                            }
                        }
                        lemma_find_rumor_at(s2, g, m, s2.len() as int);
                    },
                }
            }
        },
    }
}

fn rumor_pos_from(store: &Vec<ServiceRumor>, group: u64, member: u64, i: usize) -> (r: usize)
    requires
        i <= store@.len(),
    ensures
        i <= r <= store@.len(),
        r - i == spec_rumor_pos(store@.map_values(|x: ServiceRumor| x@).skip(i as int), group, member),
    decreases store@.len() - i,
{
    let ghost all = store@.map_values(|x: ServiceRumor| x@);
    if i == store.len() {
        i
    } else {
        proof {
            assert(all.skip(i as int)[0] == all[i as int]);
            assert(all.skip(i as int).skip(1) =~= all.skip(i as int + 1));
        }
        if store[i].group < group || (store[i].group == group && store[i].member < member) {
            rumor_pos_from(store, group, member, i + 1)
        } else {
            i
        }
    }
}

fn find_rumor_from(store: &Vec<ServiceRumor>, group: u64, member: u64, i: usize) -> (r: Option<
    usize,
>)
    requires
        i <= store@.len(),
    ensures
        match r {
            Some(j) => i <= j < store@.len() && spec_find_rumor(
                store@.map_values(|x: ServiceRumor| x@).skip(i as int),
                group,
                member,
            ) == Some(j - i),
            None => spec_find_rumor(
                store@.map_values(|x: ServiceRumor| x@).skip(i as int),
                group,
                member,
            ) is None,
        },
    decreases store@.len() - i,
{
    let ghost all = store@.map_values(|x: ServiceRumor| x@);
    if i == store.len() {
        None
    } else {
        proof {
            assert(all.skip(i as int)[0] == all[i as int]);
            assert(all.skip(i as int).skip(1) =~= all.skip(i as int + 1));
        }
        if store[i].group == group && store[i].member == member {
            Some(i)
        } else {
            find_rumor_from(store, group, member, i + 1)
        }
    }
}

impl GossipState {
    /// A gossip state with empty stores for member `member_id`.
    pub fn new(member_id: u64) -> (r: GossipState)
        ensures
            r.member_id == member_id,
            r.service_store@.len() == 0,
            r.election_store@.len() == 0,
            r.update_store@.len() == 0,
            r.member_list@.len() == 0,
            r.elections_started@.len() == 0,
            r.elections_restarted == 0,
    {
        GossipState {
            member_id,
            service_store: Vec::new(),
            election_store: Vec::new(),
            update_store: Vec::new(),
            member_list: Vec::new(),
            elections_started: Vec::new(),
            elections_restarted: 0,
        }
    }

    /// The incarnation of the rumor keyed `(group, member)`, if present.
    pub fn rumor_incarnation(&self, group: u64, member: u64) -> (r: Option<u64>)
        ensures
            match spec_find_rumor(
                self.service_store@.map_values(|x: ServiceRumor| x@),
                group,
                member,
            ) {
                Some(i) => r == Some(
                    self.service_store@.map_values(|x: ServiceRumor| x@)[i].incarnation,
                ),
                None => r is None,
            },
    {
        proof {
            assert(self.service_store@.map_values(|x: ServiceRumor| x@).skip(0)
                =~= self.service_store@.map_values(|x: ServiceRumor| x@));
        }
        match find_rumor_from(&self.service_store, group, member, 0) {
            Some(j) => Some(self.service_store[j].incarnation),
            None => None,
        }
    }

    /// Inserts `rumor`, replacing the store's rumor with the same
    /// `(group, member)` key or splicing it in at its key's position, so
    /// that a store kept in key order stays in key order.
    pub fn insert_service(&mut self, rumor: ServiceRumor)
        ensures
            ({
                let old_view = old(self).service_store@.map_values(|x: ServiceRumor| x@);
                let new_view = final(self).service_store@.map_values(|x: ServiceRumor| x@);
                new_view == spec_store_insert(old_view, rumor@)
            }),
            store_sorted(old(self).service_store@.map_values(|x: ServiceRumor| x@))
                ==> store_sorted(final(self).service_store@.map_values(|x: ServiceRumor| x@)),
            final(self).member_id == old(self).member_id,
            final(self).election_store == old(self).election_store,
            final(self).update_store == old(self).update_store,
            final(self).member_list == old(self).member_list,
            final(self).elections_started == old(self).elections_started,
            final(self).elections_restarted == old(self).elections_restarted,
    {
        proof {
            assert(self.service_store@.map_values(|x: ServiceRumor| x@).skip(0)
                =~= self.service_store@.map_values(|x: ServiceRumor| x@));
            assert(spec_rumor_pos(
                self.service_store@.map_values(|x: ServiceRumor| x@).skip(0),
                rumor.group,
                rumor.member,
            ) == spec_rumor_pos(
                self.service_store@.map_values(|x: ServiceRumor| x@),
                rumor.group,
                rumor.member,
            ));
        }
        let ghost old_view = self.service_store@.map_values(|x: ServiceRumor| x@);
        match find_rumor_from(&self.service_store, rumor.group, rumor.member, 0) {
            Some(j) => {
                self.service_store.remove(j);
                self.service_store.insert(j, rumor);
                proof {
                    let new_view = self.service_store@.map_values(|x: ServiceRumor| x@);
                    assert(new_view =~= old_view.update(j as int, rumor@));
                    if store_sorted(old_view) {
                        lemma_find_rumor_some(old_view, rumor.group, rumor.member);
                        assert forall|a: int, b: int|
                            0 <= a < b < new_view.len() implies rumor_key_lt(
                            #[trigger] new_view[a],
                            #[trigger] new_view[b],
                        ) by {
                            assert(rumor_key_lt(old_view[a], old_view[b]));
                        }
                    }
                }
            },
            None => {
                let p = rumor_pos_from(&self.service_store, rumor.group, rumor.member, 0);
                self.service_store.insert(p, rumor);
                proof {
                    let new_view = self.service_store@.map_values(|x: ServiceRumor| x@);
                    assert(new_view =~= old_view.insert(p as int, rumor@));
                    if store_sorted(old_view) {
                        lemma_find_rumor_none(old_view, rumor.group, rumor.member);
                        lemma_rumor_pos_props(old_view, rumor.group, rumor.member);
                        assert forall|a: int, b: int|
                            0 <= a < b < new_view.len() implies rumor_key_lt(
                            #[trigger] new_view[a],
                            #[trigger] new_view[b],
                        ) by {
                            if a < p && b < p {
                                assert(new_view[a] == old_view[a] && new_view[b] == old_view[b]);
                            } else if a < p && b == p {
                                assert(new_view[a] == old_view[a]);
                            } else if a < p && b > p {
                                assert(new_view[a] == old_view[a] && new_view[b] == old_view[b
                                    - 1]);
                                assert(rumor_key_lt(old_view[a], old_view[b - 1]));
                            } else if a == p && b > p {
                                assert(new_view[b] == old_view[b - 1]);
                                if b - 1 > p {
                                    assert(rumor_key_lt(old_view[p as int], old_view[b - 1]));
                                }
                            } else {
                                assert(new_view[a] == old_view[a - 1] && new_view[b] == old_view[b
                                    - 1]);
                                assert(rumor_key_lt(old_view[a - 1], old_view[b - 1]));
                            }
                        }
                    }
                }
            },
        }
    }

    /// Asks the gossip layer to run an election for `group`.
    pub fn start_election(&mut self, group: u64)
        ensures
            final(self).elections_started@ == old(self).elections_started@.push(group),
            final(self).member_id == old(self).member_id,
            final(self).service_store == old(self).service_store,
            final(self).election_store == old(self).election_store,
            final(self).update_store == old(self).update_store,
            final(self).member_list == old(self).member_list,
            final(self).elections_restarted == old(self).elections_restarted,
    {
        self.elections_started.push(group);
    }

    /// Records one more request to the gossip layer to restart any
    /// stalled elections; the count saturates at the top of its range.
    pub fn restart_elections(&mut self)
        ensures
            final(self).elections_restarted == (if old(self).elections_restarted < u64::MAX {
                (old(self).elections_restarted + 1) as u64
            } else {
                old(self).elections_restarted
            }),
            final(self).member_id == old(self).member_id,
            final(self).service_store == old(self).service_store,
            final(self).election_store == old(self).election_store,
            final(self).update_store == old(self).update_store,
            final(self).member_list == old(self).member_list,
            final(self).elections_started == old(self).elections_started,
    {
        if self.elections_restarted < u64::MAX {
            self.elections_restarted = self.elections_restarted + 1;
        }
    }
}

/// The election tie-breaker handed to the gossip layer: the suitability
/// of the first service in `group`, or zero when none is known.
pub open spec fn spec_suitability(services: Seq<Service>, group: u64) -> u64
    decreases services.len(),
{
    if services.len() == 0 {
        0u64
    } else if services[0].group_key == group {
        match services[0].suitability {
            Some(s) => s,
            None => 0u64,
        }
    } else {
        spec_suitability(services.skip(1), group)
    }
}

fn suitability_from(services: &Vec<Service>, group: u64, i: usize) -> (r: u64)
    requires
        i <= services@.len(),
    ensures
        r == spec_suitability(services@.skip(i as int), group),
    decreases services@.len() - i,
{
    if i == services.len() {
        0
    } else {
        proof {
            assert(services@.skip(i as int)[0] == services@[i as int]);
            assert(services@.skip(i as int).skip(1) =~= services@.skip(i as int + 1));
        }
        if services[i].group_key == group {
            match services[i].suitability {
                Some(s) => s,
                None => 0,
            }
        } else {
            suitability_from(services, group, i + 1)
        }
    }
}

/// Looks up the suitability this node contributes to an election for
/// `group`.
pub fn suitability_lookup(services: &Vec<Service>, group: u64) -> (r: u64)
    ensures
        r == spec_suitability(services@, group),
{
    let r = suitability_from(services, group, 0);
    proof {
        assert(services@.skip(0) =~= services@);
    }
    r
}

/// The tick-driven orchestrator's state.
pub struct Manager {
    pub gossip: GossipState,
    pub census_ring: CensusRing,
    pub fs_cfg: FsCfg,
    pub services: Vec<Service>,
    /// `state_entered` stamps seen at the previous tick, for dirtiness.
    pub service_states: Vec<u64>,
    pub gossip_listen: String,
    pub http_listen: String,
    pub organization: Option<String>,
}

/// No two managed services claim the same spec identifier.
pub open spec fn services_unique(services: Seq<Service>) -> bool {
    forall|i: int, j: int|
        0 <= i < j < services.len() ==> (#[trigger] services[i].spec_ident)@ != (
        #[trigger] services[j].spec_ident)@
}

/// No two managed services share a gossip group key.
pub open spec fn service_groups_unique(ss: Seq<Service>) -> bool {
    forall|i: int, j: int|
        0 <= i < j < ss.len() ==> (#[trigger] ss[i]).group_key != (#[trigger] ss[j]).group_key
}

/// There is a managed service whose spec identifier is `ident`.
pub open spec fn spec_has_service(services: Seq<Service>, ident: crate::ident::IdentView) -> bool {
    exists|i: int| 0 <= i < services.len() && (#[trigger] services[i].spec_ident)@ == ident
}

impl Manager {
    /// Resolves the state path from configuration: an explicit custom
    /// path wins over a named path, which wins over the default.
    pub fn state_path_from(cfg: &ManagerConfig) -> (r: String)
        ensures
            r@ == spec_state_path(
                match cfg.custom_state_path {
                    Some(c) => Some(c@),
                    None => None,
                },
                match cfg.name {
                    Some(n) => Some(n@),
                    None => None,
                },
            ),
    {
        match &cfg.custom_state_path {
            Some(custom) => custom.clone(),
            None => {
                let prefix = state_path_prefix();
                match &cfg.name {
                    Some(name) => join_path(prefix.as_str(), name.as_str()),
                    None => join_path(prefix.as_str(), "default"),
                }
            },
        }
    }

    /// The data directory beneath a state path.
    pub fn data_path(state_path: &str) -> (r: String)
        ensures
            r@ == state_path@ + "/"@ + "data"@,
    {
        join_path(state_path, "data")
    }

    /// The specs directory beneath a state path.
    pub fn specs_path(state_path: &str) -> (r: String)
        ensures
            r@ == state_path@ + "/"@ + "specs"@,
    {
        join_path(state_path, "specs")
    }

    /// Where `spec` is stored for the configuration `cfg`.
    pub fn spec_path_for(cfg: &ManagerConfig, spec: &ServiceSpec) -> (r: String)
        ensures
            r@ == spec_state_path(
                match cfg.custom_state_path {
                    Some(c) => Some(c@),
                    None => None,
                },
                match cfg.name {
                    Some(n) => Some(n@),
                    None => None,
                },
            ) + "/"@ + "specs"@ + "/"@ + spec.ident.name@ + ".spec"@,
    {
        let state_path = Self::state_path_from(cfg);
        let specs = Self::specs_path(state_path.as_str());
        let file = spec.file_name();
        let r = join_path(specs.as_str(), file.as_str());
        assert(r@ =~= spec_state_path(
            match cfg.custom_state_path {
                Some(c) => Some(c@),
                None => None,
            },
            match cfg.name {
                Some(n) => Some(n@),
                None => None,
            },
        ) + "/"@ + "specs"@ + "/"@ + spec.ident.name@ + ".spec"@);
        r
    }

    /// Whether another supervisor instance is running against the state
    /// directory: true exactly when the lock holds a parsable PID that
    /// is alive. A missing or corrupt lock means no instance.
    pub fn is_running(dir: &StateDir, live_pids: &Vec<u32>) -> (r: Result<bool, SupError>)
        ensures
            match spec_read_lock(*dir) {
                Ok(pid) => r == Ok::<bool, SupError>(live_pids@.contains(pid)),
                Err(e) => r == Ok::<bool, SupError>(false),
            },
    {
        match read_process_lock(dir) {
            Ok(pid) => {
                let mut i: usize = 0;
                while i < live_pids.len()
                    invariant
                        i <= live_pids@.len(),
                        forall|j: int| 0 <= j < i ==> live_pids@[j] != pid,
                        spec_read_lock(*dir) == Ok::<u32, SupError>(pid),
                    decreases live_pids@.len() - i,
                {
                    if live_pids[i] == pid {
                        proof {
                            assert(live_pids@.contains(pid)) by {
                                assert(live_pids@[i as int] == pid);
                            }
                        }
                        return Ok(true);
                    }
                    i = i + 1;
                }
                Ok(false)
            },
            Err(_) => Ok(false),
        }
    }

    /// Builds a manager around empty runtime state.
    pub fn new(cfg: ManagerConfig, member_id: u64, fs_cfg: FsCfg) -> (r: Manager)
        ensures
            r.gossip.member_id == member_id,
            r.gossip.service_store@.len() == 0,
            r.census_ring@.local_member == member_id,
            r.census_ring@.entries.len() == 0,
            !r.census_ring@.changed,
            r.services@.len() == 0,
            r.service_states@.len() == 0,
            r.fs_cfg == fs_cfg,
            r.gossip_listen == cfg.gossip_listen,
            r.http_listen == cfg.http_listen,
            r.organization == cfg.organization,
    {
        Manager {
            gossip: GossipState::new(member_id),
            census_ring: CensusRing::new(member_id),
            fs_cfg,
            services: Vec::new(),
            service_states: Vec::new(),
            gossip_listen: cfg.gossip_listen,
            http_listen: cfg.http_listen,
            organization: cfg.organization,
        }
    }

    /// Boots a manager against the state directory: takes the
    /// single-instance lock, lays the directory out, sweeps stale
    /// temporary files and health caches, and settles the member
    /// identity. Fails with `ProcessLocked` exactly when a live instance
    /// holds the lock, and then touches nothing: a losing contender
    /// leaves the state directory as it found it.
    pub fn load(
        cfg: ManagerConfig,
        fs_cfg: FsCfg,
        dir: &mut StateDir,
        fresh_member_id: Vec<u8>,
        member_key: u64,
        my_pid: u32,
        live_pids: &Vec<u32>,
    ) -> (r: Result<Manager, SupError>)
        ensures
            match old(dir).lock {
                None => r is Ok,
                Some(b) => match crate::pidlock::spec_parse_pid(b@) {
                    Some(pid) => if live_pids@.contains(pid) {
                        r == Err::<Manager, SupError>(SupError::ProcessLocked(pid)) && *final(dir)
                            == *old(dir)
                    } else {
                        r is Ok
                    },
                    None => r is Ok,
                },
            },
            r is Ok ==> final(dir).data_dir && final(dir).specs_dir,
            r is Ok ==> final(dir).no_tmp_files() && final(dir).health_files@.len() == 0,
            r is Ok ==> final(dir).member_id is Some,
            r is Ok && old(dir).member_id is Some ==> final(dir).member_id == old(dir).member_id,
            r is Ok ==> (final(dir).lock matches Some(b) && b@ == spec_lock_content(my_pid)),
            r is Ok ==> final(dir).butterfly_dat == old(dir).butterfly_dat && final(dir).census_dat
                == old(dir).census_dat && final(dir).services_dat == old(dir).services_dat,
            r matches Ok(m) ==> m.gossip.member_id == member_key && m.services@.len() == 0,
    {
        match obtain_process_lock(dir, my_pid, live_pids) {
            Err(e) => Err(e),
            Ok(()) => {
                create_state_path_dirs(dir);
                clean_dirty_state(dir);
                let _member_bytes = load_member(dir, fresh_member_id);
                Ok(Self::new(cfg, member_key, fs_cfg))
            },
        }
    }

    /// Whether a service for `ident` is currently managed.
    pub fn has_service(&self, ident: &PackageIdent) -> (r: bool)
        ensures
            r == spec_has_service(self.services@, ident@),
    {
        let mut i: usize = 0;
        while i < self.services.len()
            invariant
                i <= self.services@.len(),
                forall|j: int| 0 <= j < i ==> (#[trigger] self.services@[j].spec_ident)@ != ident@,
            decreases self.services@.len() - i,
        {
            if ident_eq(&self.services[i].spec_ident, ident) {
                return true;
            }
            i = i + 1;
        }
        false
    }

    /// Takes a freshly loaded service under management: its rumor enters
    /// the service store, a leader topology starts an election, and the
    /// service joins the managed set.
    pub fn add_service(&mut self, service: Service)
        requires
            !spec_has_service(old(self).services@, service.spec_ident@),
            services_unique(old(self).services@),
            service.pkg.well_formed(),
        ensures
            final(self).services@ == old(self).services@.push(service),
            services_unique(final(self).services@),
            ({
                let old_view = old(self).gossip.service_store@.map_values(|x: ServiceRumor| x@);
                let new_view = final(self).gossip.service_store@.map_values(|x: ServiceRumor| x@);
                let rumor = spec_to_rumor(service, old(self).gossip.member_id);
                new_view == spec_store_insert(old_view, rumor)
            }),
            service.topology == Topology::Leader ==> final(self).gossip.elections_started@ == old(self).gossip.elections_started@.push(service.group_key),
            service.topology != Topology::Leader ==> final(self).gossip.elections_started == old(self).gossip.elections_started,
            final(self).census_ring == old(self).census_ring,
            final(self).service_states == old(self).service_states,
            final(self).gossip.member_id == old(self).gossip.member_id,
            final(self).gossip.member_list == old(self).gossip.member_list,
            final(self).gossip.election_store == old(self).gossip.election_store,
            final(self).gossip.update_store == old(self).gossip.update_store,
            final(self).gossip.elections_restarted == old(self).gossip.elections_restarted,
    {
        let rumor = to_rumor(&service, self.gossip.member_id);
        self.gossip.insert_service(rumor);
        if matches!(service.topology, Topology::Leader) {
            self.gossip.start_election(service.group_key);
        }
        let ghost pre = self.services@;
        self.services.push(service);
        proof {
            let post = self.services@;
            assert forall|i: int, j: int|
                0 <= i < j < post.len() implies (#[trigger] post[i].spec_ident)@ != (
            #[trigger] post[j].spec_ident)@ by {
                if j < pre.len() {
                } else {
                    assert(post[j] == service);
                    if (post[i].spec_ident)@ == service.spec_ident@ {
                        assert(spec_has_service(pre, service.spec_ident@));
                    }
                }
            }
        }
    }

    /// Stops a service that leaves management. Returns true when its
    /// spec file must be removed too, which holds exactly of transient
    /// services.
    pub fn remove_service(&self, service: &mut Service, now: u64) -> (remove_spec_file: bool)
        requires
            now >= old(service).supervisor.state_entered,
        ensures
            final(service).supervisor.state == ProcessState::Down,
            final(service).supervisor.pid is None,
            final(service).spec_ident == old(service).spec_ident,
            final(service).start_style == old(service).start_style,
            remove_spec_file == (old(service).start_style == StartStyle::Transient),
    {
        service.stop(now);
        matches!(service.start_style, StartStyle::Transient)
    }
}

/// Compares two package identifiers by value.
pub fn ident_eq(a: &PackageIdent, b: &PackageIdent) -> (r: bool)
    ensures
        r == (a@ == b@),
{
    let r = if !a.origin.eq(&b.origin) {
        false
    } else if !a.name.eq(&b.name) {
        false
    } else {
        let vr = match (&a.version, &b.version) {
            (Some(x), Some(y)) => x.eq(y),
            (None, None) => true,
            _ => false,
        };
        if !vr {
            false
        } else {
            match (&a.release, &b.release) {
                (Some(x), Some(y)) => x.eq(y),
                (None, None) => true,
                _ => false,
            }
        }
    };
    proof {
        if r {
            assert(a@ =~= b@);
        }
    }
    r
}

/// The rumor a service contributes: keyed by its group and this member,
/// carrying its package text, incarnation and rendered configuration.
pub open spec fn spec_to_rumor(s: Service, member: u64) -> ServiceRumorView {
    ServiceRumorView {
        group: s.group_key,
        member: member,
        incarnation: s.incarnation,
        pkg: ident_text(s.pkg@),
        cfg: s.cfg@,
    }
}

/// Projects a service onto its gossip rumor.
pub fn to_rumor(service: &Service, member: u64) -> (r: ServiceRumor)
    requires
        service.pkg.well_formed(),
    ensures
        r@ == spec_to_rumor(*service, member),
{
    let r = ServiceRumor {
        group: service.group_key,
        member,
        incarnation: service.incarnation,
        pkg: service.pkg.to_text(),
        cfg: crate::fsstate::copy_bytes(&service.cfg),
    };
    assert(r@ =~= spec_to_rumor(*service, member));
    r
}

/// Every service entered its current state no later than `now`.
pub open spec fn states_at_most(ss: Seq<Service>, now: u64) -> bool {
    forall|i: int| 0 <= i < ss.len() ==> (#[trigger] ss[i]).supervisor.state_entered <= now
}

/// Every service runs a well-formed package identifier.
pub open spec fn services_well_formed(ss: Seq<Service>) -> bool {
    forall|i: int| 0 <= i < ss.len() ==> (#[trigger] ss[i]).pkg.well_formed()
}

/// All fields of `b` agree with `a` except possibly the supervisor.
pub open spec fn same_but_supervisor(a: Service, b: Service) -> bool {
    &&& b.spec_ident == a.spec_ident
    &&& b.pkg == a.pkg
    &&& b.service_group == a.service_group
    &&& b.group_key == a.group_key
    &&& b.topology == a.topology
    &&& b.update_strategy == a.update_strategy
    &&& b.start_style == a.start_style
    &&& b.incarnation == a.incarnation
    &&& b.cfg == a.cfg
    &&& b.leader == a.leader
    &&& b.suitability == a.suitability
}

/// The specs of the add events that ask for a running service, in event
/// order.
pub open spec fn spec_specs_to_load(evs: Seq<SpecWatcherEvent>) -> Seq<ServiceSpec>
    decreases evs.len(),
{
    if evs.len() == 0 {
        Seq::empty()
    } else {
        let rest = spec_specs_to_load(evs.skip(1));
        match evs[0] {
            SpecWatcherEvent::AddService(s) => if s.desired_state == DesiredState::Up {
                seq![s] + rest
            } else {
                rest
            },
            SpecWatcherEvent::RemoveService(_) => rest,
        }
    }
}

/// The first index of a service for `ident`, if one is managed.
pub open spec fn spec_find_service(ss: Seq<Service>, ident: crate::ident::IdentView) -> Option<int>
    decreases ss.len(),
{
    if ss.len() == 0 {
        None
    } else if ss[0].spec_ident@ == ident {
        Some(0int)
    } else {
        match spec_find_service(ss.skip(1), ident) {
            Some(j) => Some(j + 1),
            None => None,
        }
    }
}

/// A position with no match before it and a match at it is the found
/// index; a sequence with no match at all finds nothing.
proof fn lemma_find_service_at(ss: Seq<Service>, ident: crate::ident::IdentView, j: int)
    requires
        0 <= j <= ss.len(),
        forall|k: int| 0 <= k < j ==> (#[trigger] ss[k].spec_ident)@ != ident,
        j == ss.len() || (ss[j].spec_ident)@ == ident,
    ensures
        j < ss.len() ==> spec_find_service(ss, ident) == Some(j),
        j == ss.len() ==> spec_find_service(ss, ident) is None,
    decreases j,
{
    if j == 0 {
        if ss.len() > 0 {
        } else {
        }
    } else {
        lemma_find_service_at(ss.skip(1), ident, j - 1);
        assert(forall|k: int| 0 <= k < j - 1 ==> ss.skip(1)[k] == ss[k + 1]);
        if j < ss.len() {
            assert(ss.skip(1)[j - 1] == ss[j]);
        }
    }
}

fn find_service_from(services: &Vec<Service>, ident: &PackageIdent, i: usize) -> (r: Option<usize>)
    requires
        i <= services@.len(),
    ensures
        match r {
            Some(j) => i <= j < services@.len() && (#[trigger] services@[j as int].spec_ident)@
                == ident@ && forall|k: int|
                i <= k < j ==> (#[trigger] services@[k].spec_ident)@ != ident@,
            None => forall|k: int|
                i <= k < services@.len() ==> (#[trigger] services@[k].spec_ident)@ != ident@,
        },
    decreases services@.len() - i,
{
    if i == services.len() {
        None
    } else {
        if ident_eq(&services[i].spec_ident, ident) {
            Some(i)
        } else {
            find_service_from(services, ident, i + 1)
        }
    }
}

impl Manager {
    /// The specs a boot must load and start: every initial add event
    /// whose desired state is `Up`, in event order. Loading the package
    /// and spawning are the shell's work; the chosen set is not.
    pub fn start_initial_services_from_watcher(events: Vec<SpecWatcherEvent>) -> (r: Vec<
        ServiceSpec,
    >)
        ensures
            r@ == spec_specs_to_load(events@),
    {
        let mut events = events;
        let ghost orig = events@;
        let mut out: Vec<ServiceSpec> = Vec::new();
        proof {
            assert(orig.skip(0) =~= orig);
        }
        while events.len() > 0
            invariant
                out@ + spec_specs_to_load(events@) == spec_specs_to_load(orig),
            decreases events@.len(),
        {
            let ghost pre = events@;
            let ev = events.remove(0);
            proof {
                assert(pre.skip(1) =~= events@);
                assert(pre[0] == ev);
            }
            match ev {
                SpecWatcherEvent::AddService(spec) => {
                    if matches!(spec.desired_state, DesiredState::Up) {
                        out.push(spec);
                        proof {
                            assert(out@ + spec_specs_to_load(events@) =~= spec_specs_to_load(
                                orig,
                            ));
                        }
                    }
                },
                SpecWatcherEvent::RemoveService(_) => {},
            }
        }
        proof {
            assert(spec_specs_to_load(events@) =~= Seq::<ServiceSpec>::empty());
            assert(out@ =~= spec_specs_to_load(orig));
        }
        out
    }

    /// Stops and unmanages the service loaded for `spec`, if one is. The
    /// flag reports whether one was; the name, when present, is the spec
    /// file a removed transient service leaves to unlink.
    pub fn remove_service_for_spec(&mut self, spec: &ServiceSpec, now: u64) -> (r: (
        bool,
        Option<String>,
    ))
        requires
            services_unique(old(self).services@),
            states_at_most(old(self).services@, now),
        ensures
            match spec_find_service(old(self).services@, spec.ident@) {
                None => r.0 == false && final(self).services == old(self).services && r.1 is None,
                Some(j) => r.0 == true && final(self).services@ == old(self).services@.remove(j)
                    && (r.1 is Some <==> old(self).services@[j].start_style
                    == StartStyle::Transient) && (r.1 matches Some(n) ==> n@ == spec.ident.name@
                    + ".spec"@),
            },
            r.0 == spec_has_service(old(self).services@, spec.ident@),
            !spec_has_service(final(self).services@, spec.ident@),
            services_unique(final(self).services@),
            forall|idv: crate::ident::IdentView|
                #[trigger] spec_has_service(final(self).services@, idv) ==> spec_has_service(
                    old(self).services@,
                    idv,
                ),
            !r.0 ==> final(self).services == old(self).services,
            r.0 ==> final(self).services@.len() + 1 == old(self).services@.len(),
            r.1 is Some ==> r.0 && r.1.unwrap()@ == spec.ident.name@ + ".spec"@,
            states_at_most(final(self).services@, now),
            services_well_formed(old(self).services@) ==> services_well_formed(
                final(self).services@,
            ),
            service_groups_unique(old(self).services@) ==> service_groups_unique(
                final(self).services@,
            ),
            final(self).gossip == old(self).gossip,
            final(self).census_ring == old(self).census_ring,
            final(self).service_states == old(self).service_states,
    {
        let ghost orig = self.services@;
        match find_service_from(&self.services, &spec.ident, 0) {
            None => {
                proof {
                    lemma_find_service_at(orig, spec.ident@, orig.len() as int);
                    if spec_has_service(orig, spec.ident@) {
                        let w = choose|i: int|
                            0 <= i < orig.len() && (#[trigger] orig[i].spec_ident)@ == spec.ident@;
                        assert((orig[w].spec_ident)@ != spec.ident@);
                    }

                }
                (false, None)
            },
            Some(j) => {
                proof {
                    lemma_find_service_at(orig, spec.ident@, j as int);
                }
                let mut svc = self.services.remove(j);
                proof {
                    assert(orig[j as int].supervisor.state_entered <= now);
                }
                let transient = self.remove_service(&mut svc, now);
                let name = if transient {
                    Some(spec.file_name())
                } else {
                    None
                };
                proof {
                    let post = self.services@;
                    assert(post =~= orig.remove(j as int));
                    assert forall|m: int|
                        0 <= m < post.len() implies (#[trigger] post[m].spec_ident)@
                        != spec.ident@ by {
                        if m < j {
                            assert(post[m] == orig[m]);
                            if (orig[m].spec_ident)@ == spec.ident@ {
                                assert((orig[m].spec_ident)@ != (orig[j as int].spec_ident)@);
                            }
                        } else {
                            assert(post[m] == orig[m + 1]);
                            assert((orig[m + 1].spec_ident)@ != (orig[j as int].spec_ident)@);
                        }
                    }
                    assert forall|m: int, n: int|
                        0 <= m < n < post.len() implies (#[trigger] post[m].spec_ident)@ != (
                    #[trigger] post[n].spec_ident)@ by {
                        let m0 = if m < j { m } else { m + 1 };
                        let n0 = if n < j { n } else { n + 1 };
                        assert(post[m] == orig[m0]);
                        assert(post[n] == orig[n0]);
                    }
                    if service_groups_unique(orig) {
                        assert forall|m: int, n: int|
                            0 <= m < n < post.len() implies (#[trigger] post[m]).group_key != (
                        #[trigger] post[n]).group_key by {
                            let m0 = if m < j { m } else { m + 1 };
                            let n0 = if n < j { n } else { n + 1 };
                            assert(post[m] == orig[m0]);
                            assert(post[n] == orig[n0]);
                        }
                    }
                    assert forall|m: int|
                        0 <= m < self.services@.len() implies (
                    #[trigger] self.services@[m]).supervisor.state_entered <= now by {
                        if m < j {
                            assert(self.services@[m] == old(self).services@[m]);
                        } else {
                            assert(self.services@[m] == old(self).services@[m + 1]);
                        }
                    }
                    if services_well_formed(old(self).services@) {
                        assert forall|m: int|
                            0 <= m < self.services@.len() implies (
                        #[trigger] self.services@[m]).pkg.well_formed() by {
                            if m < j {
                                assert(self.services@[m] == old(self).services@[m]);
                            } else {
                                assert(self.services@[m] == old(self).services@[m + 1]);
                            }
                        }
                    }
                    assert forall|idv: crate::ident::IdentView|
                        #[trigger] spec_has_service(self.services@, idv) implies spec_has_service(
                        old(self).services@,
                        idv,
                    ) by {
                        let w = choose|i: int|
                            0 <= i < self.services@.len() && (
                            #[trigger] self.services@[i].spec_ident)@ == idv;
                        let w0 = if w < j { w } else { w + 1 };
                        assert(self.services@[w] == old(self).services@[w0]);
                        assert((old(self).services@[w0].spec_ident)@ == idv);
                    }
                    assert(spec_has_service(orig, spec.ident@)) by {
                        assert((orig[j as int].spec_ident)@ == spec.ident@);
                    }
                }
                (true, name)
            },
        }
    }

    /// Applies one tick of spec reconciliation: every removal event (a
    /// vanished spec file, or one whose desired state turned `Down`)
    /// stops and unmanages its service; the specs that ask for new
    /// running services are returned for the shell to load. After the
    /// call no service remains for any removed spec's identifier.
    pub fn update_running_services_from_watcher(&mut self, events: Vec<SpecWatcherEvent>, now: u64)
        -> (r: (Vec<ServiceSpec>, Vec<String>))
        requires
            services_unique(old(self).services@),
            states_at_most(old(self).services@, now),
        ensures
            r.0@ == spec_specs_to_load(events@),
            r.1@.map_values(|n: String| n@) == spec_reconcile_names(old(self).services@, events@),
            service_groups_unique(old(self).services@) ==> service_groups_unique(
                final(self).services@,
            ),
            forall|e: int|
                0 <= e < events@.len() ==> match #[trigger] events@[e] {
                    SpecWatcherEvent::RemoveService(s) => !spec_has_service(
                        final(self).services@,
                        s.ident@,
                    ),
                    SpecWatcherEvent::AddService(_) => true,
                },
            services_unique(final(self).services@),
            states_at_most(final(self).services@, now),
            final(self).services@.len() <= old(self).services@.len(),
            services_well_formed(old(self).services@) ==> services_well_formed(
                final(self).services@,
            ),
            final(self).gossip == old(self).gossip,
            final(self).census_ring == old(self).census_ring,
            final(self).service_states == old(self).service_states,
    {
        let ghost orig_events = events@;
        let mut events = events;
        let mut to_load: Vec<ServiceSpec> = Vec::new();
        let mut unlink: Vec<String> = Vec::new();
        proof {
            assert(orig_events.skip(0) =~= orig_events);
        }
        let ghost mut processed: Seq<SpecWatcherEvent> = Seq::empty();
        while events.len() > 0
            invariant
                services_unique(self.services@),
                states_at_most(self.services@, now),
                self.services@.len() <= old(self).services@.len(),
                services_well_formed(old(self).services@) ==> services_well_formed(
                    self.services@,
                ),
                service_groups_unique(old(self).services@) ==> service_groups_unique(
                    self.services@,
                ),
                unlink@.map_values(|n: String| n@) + spec_reconcile_names(
                    self.services@,
                    events@,
                ) == spec_reconcile_names(old(self).services@, orig_events),
                processed + events@ == orig_events,
                to_load@ + spec_specs_to_load(events@) == spec_specs_to_load(orig_events),
                forall|e: int|
                    0 <= e < processed.len() ==> match #[trigger] processed[e] {
                        SpecWatcherEvent::RemoveService(s) => !spec_has_service(
                            self.services@,
                            s.ident@,
                        ),
                        SpecWatcherEvent::AddService(_) => true,
                    },
                self.gossip == old(self).gossip,
                self.census_ring == old(self).census_ring,
                self.service_states == old(self).service_states,
            decreases events@.len(),
        {
            let ghost pre = events@;
            let ghost pre_services = self.services@;
            let ev = events.remove(0);
            proof {
                assert(pre.skip(1) =~= events@);
                assert(pre[0] == ev);
            }
            match ev {
                SpecWatcherEvent::AddService(spec) => {
                    if matches!(spec.desired_state, DesiredState::Up) {
                        to_load.push(spec);
                        proof {
                            assert(to_load@ + spec_specs_to_load(events@) =~= spec_specs_to_load(
                                orig_events,
                            ));
                        }
                        proof {
                            processed = processed.push(SpecWatcherEvent::AddService(spec));
                            assert(processed + events@ =~= orig_events);
                        }
                    } else {
                        proof {
                            processed = processed.push(SpecWatcherEvent::AddService(spec));
                            assert(processed + events@ =~= orig_events);
                        }
                    }
                    proof {
                        assert(unlink@.map_values(|n: String| n@) + spec_reconcile_names(
                            self.services@,
                            events@,
                        ) =~= spec_reconcile_names(old(self).services@, orig_events));
                    }
                },
                SpecWatcherEvent::RemoveService(spec) => {
                    let ghost pre_removed = self.services@;
                    let (_removed, name) = self.remove_service_for_spec(&spec, now);
                    match name {
                        Some(n) => unlink.push(n),
                        None => {},
                    }
                    proof {
                        processed = processed.push(SpecWatcherEvent::RemoveService(spec));
                        assert(processed + events@ =~= orig_events);
                        assert(unlink@.map_values(|n: String| n@) + spec_reconcile_names(
                            self.services@,
                            events@,
                        ) =~= spec_reconcile_names(old(self).services@, orig_events));
                    }
                },
            }
        }
        proof {
            assert(spec_specs_to_load(events@) =~= Seq::<ServiceSpec>::empty());
            assert(to_load@ =~= spec_specs_to_load(orig_events));
            assert(spec_reconcile_names(self.services@, events@) =~= Seq::<Seq<char>>::empty());
            assert(unlink@.map_values(|n: String| n@) =~= spec_reconcile_names(
                old(self).services@,
                orig_events,
            ));
            assert(processed =~= orig_events);
        }
        (to_load, unlink)
    }

    /// Handles a pending signal: a shutdown request stops every service
    /// and asks the caller to exit; a pass-through signal is forwarded
    /// by the shell and changes nothing here.
    pub fn check_for_incoming_signals(&mut self, signal: Option<SignalEvent>, now: u64) -> (r:
        bool)
        requires
            states_at_most(old(self).services@, now),
        ensures
            r == (signal == Some(SignalEvent::Shutdown)),
            match signal {
                Some(SignalEvent::Shutdown) => {
                    &&& final(self).services@.len() == old(self).services@.len()
                    &&& forall|i: int|
                        0 <= i < final(self).services@.len() ==> same_but_supervisor(
                            old(self).services@[i],
                            #[trigger] final(self).services@[i],
                        ) && final(self).services@[i].supervisor == (Supervisor {
                            pid: None,
                            state: ProcessState::Down,
                            state_entered: now,
                        })
                },
                _ => final(self).services == old(self).services,
            },
            final(self).gossip == old(self).gossip,
            final(self).census_ring == old(self).census_ring,
            final(self).service_states == old(self).service_states,
    {
        match signal {
            Some(SignalEvent::Shutdown) => {
                let ghost orig = self.services@;
                let mut work: Vec<Service> = Vec::new();
                core::mem::swap(&mut self.services, &mut work);
                while work.len() > 0
                    invariant
                        self.services@.len() + work@.len() == orig.len(),
                        work@ == orig.skip(self.services@.len() as int),
                        states_at_most(work@, now),
                        forall|i: int|
                            0 <= i < self.services@.len() ==> same_but_supervisor(
                                orig[i],
                                #[trigger] self.services@[i],
                            ) && self.services@[i].supervisor == (Supervisor {
                                pid: None,
                                state: ProcessState::Down,
                                state_entered: now,
                            }),
                        self.gossip == old(self).gossip,
                        self.census_ring == old(self).census_ring,
                        self.service_states == old(self).service_states,
                    decreases work@.len(),
                {
                    let ghost pre_work = work@;
                    let ghost done = self.services@.len() as int;
                    let mut svc = work.remove(0);
                    proof {
                        assert(pre_work[0] == orig[done]);
                        assert(pre_work.skip(1) =~= work@);
                    }
                    svc.stop(now);
                    self.services.push(svc);
                    proof {
                        assert(work@ =~= orig.skip(self.services@.len() as int));
                    }
                }
                proof {
                    assert(self.services@.len() == orig.len());
                }
                true
            },
            Some(SignalEvent::Passthrough(_)) => false,
            None => false,
        }
    }
}

/// The value of an optional identifier.
pub open spec fn opt_ident_view(c: Option<PackageIdent>) -> Option<crate::ident::IdentView> {
    match c {
        Some(p) => Some(p@),
        None => None,
    }
}

/// The update candidate installed for `ident`, if the tick's scan found
/// one: the first pair whose key is `ident`.
pub open spec fn spec_find_candidate(
    cs: Seq<(PackageIdent, PackageIdent)>,
    ident: crate::ident::IdentView,
) -> Option<crate::ident::IdentView>
    decreases cs.len(),
{
    if cs.len() == 0 {
        None
    } else if cs[0].0@ == ident {
        Some(cs[0].1@)
    } else {
        spec_find_candidate(cs.skip(1), ident)
    }
}

fn find_candidate_from(
    cs: &Vec<(PackageIdent, PackageIdent)>,
    ident: &PackageIdent,
    i: usize,
) -> (r: Option<PackageIdent>)
    requires
        i <= cs@.len(),
        forall|k: int| 0 <= k < cs@.len() ==> (#[trigger] cs@[k]).1.well_formed(),
    ensures
        opt_ident_view(r) == spec_find_candidate(cs@.skip(i as int), ident@),
        (r matches Some(p) ==> p.well_formed()),
    decreases cs@.len() - i,
{
    if i == cs.len() {
        None
    } else {
        proof {
            assert(cs@.skip(i as int)[0] == cs@[i as int]);
            assert(cs@.skip(i as int).skip(1) =~= cs@.skip(i as int + 1));
        }
        if ident_eq(&cs[i].0, ident) {
            Some(cs[i].1.clone_ident())
        } else {
            find_candidate_from(cs, ident, i + 1)
        }
    }
}

/// When a candidate package may replace a running one: `AtOnce` swaps on
/// any candidate; `Rolling` swaps only while this member is the group's
/// update leader; `NoUpdate` never swaps.
pub open spec fn spec_should_swap(
    s: Service,
    cand: Option<crate::ident::IdentView>,
    ring: crate::census::CensusRingView,
) -> bool {
    match cand {
        None => false,
        Some(_) => match s.update_strategy {
            UpdateStrategy::NoUpdate => false,
            UpdateStrategy::AtOnce => true,
            UpdateStrategy::Rolling => match spec_me(ring.entries, ring.local_member, s.group_key) {
                Some(e) => e.update_leader,
                None => false,
            },
        },
    }
}

/// The incarnation a swapped service's rumor carries: one past the
/// stored rumor's (or the service's own when none is stored), saturating
/// at the top of the range.
pub open spec fn spec_next_incarnation(g: GossipState, s: Service) -> u64 {
    let cur = match spec_lookup_rumor(
        g.service_store@.map_values(|x: ServiceRumor| x@),
        s.group_key,
        g.member_id,
    ) {
        Some(r) => r.incarnation,
        None => s.incarnation,
    };
    if cur < u64::MAX {
        (cur + 1) as u64
    } else {
        cur
    }
}

/// Consults the update strategy for one service. On a swap the service
/// takes the candidate package, bumps its rumor incarnation, re-renders
/// its group view, and its refreshed rumor re-enters the service store.
/// No state transition occurs: the supervisor part is untouched.
pub fn check_for_updated_package(
    gossip: &mut GossipState,
    service: &mut Service,
    ring: &CensusRing,
    candidate: Option<PackageIdent>,
) -> (r: bool)
    requires
        (candidate matches Some(p) ==> p.well_formed()),
    ensures
        r == spec_should_swap(*old(service), opt_ident_view(candidate), ring@),
        !r ==> *final(service) == *old(service) && *final(gossip) == *old(gossip),
        r ==> final(service).pkg@ == opt_ident_view(candidate).unwrap(),
        r ==> final(service).incarnation == spec_next_incarnation(*old(gossip), *old(service)),
        r ==> final(service).supervisor == old(service).supervisor,
        r ==> final(service).leader == crate::census::spec_group_leader(
            ring@.entries,
            old(service).group_key,
        ),
        final(service).spec_ident == old(service).spec_ident,
        final(service).service_group == old(service).service_group,
        final(service).group_key == old(service).group_key,
        final(service).topology == old(service).topology,
        final(service).update_strategy == old(service).update_strategy,
        final(service).start_style == old(service).start_style,
        final(service).cfg == old(service).cfg,
        final(service).suitability == old(service).suitability,
        final(service).supervisor == old(service).supervisor,
        r ==> ({
            let old_view = old(gossip).service_store@.map_values(|x: ServiceRumor| x@);
            let new_view = final(gossip).service_store@.map_values(|x: ServiceRumor| x@);
            let rumor = spec_to_rumor(*final(service), old(gossip).member_id);
            new_view == spec_store_insert(old_view, rumor)
        }),
        final(gossip).member_id == old(gossip).member_id,
        final(gossip).election_store == old(gossip).election_store,
        final(gossip).update_store == old(gossip).update_store,
        final(gossip).member_list == old(gossip).member_list,
        final(gossip).elections_started == old(gossip).elections_started,
        final(gossip).elections_restarted == old(gossip).elections_restarted,
{
    match candidate {
        None => false,
        Some(pkg) => {
            let swap = match service.update_strategy {
                UpdateStrategy::NoUpdate => false,
                UpdateStrategy::AtOnce => true,
                UpdateStrategy::Rolling => match ring.me(service.group_key) {
                    Some(e) => e.update_leader,
                    None => false,
                },
            };
            if swap {
                let inc = match gossip.rumor_incarnation(service.group_key, gossip.member_id) {
                    Some(c) => c,
                    None => service.incarnation,
                };
                let inc = if inc < u64::MAX {
                    inc + 1
                } else {
                    inc
                };
                service.pkg = pkg;
                service.incarnation = inc;
                service.populate(ring);
                let rumor = to_rumor(service, gossip.member_id);
                gossip.insert_service(rumor);
                true
            } else {
                false
            }
        },
    }
}

/// How many of the services swap this tick.
pub open spec fn spec_swap_count(
    ss: Seq<Service>,
    cs: Seq<(PackageIdent, PackageIdent)>,
    ring: crate::census::CensusRingView,
) -> int
    decreases ss.len(),
{
    if ss.len() == 0 {
        0
    } else {
        (if spec_should_swap(ss[0], spec_find_candidate(cs, ss[0].spec_ident@), ring) {
            1int
        } else {
            0int
        }) + spec_swap_count(ss.skip(1), cs, ring)
    }
}

/// The `state_entered` stamps of the services, in order.
pub open spec fn spec_stamps(ss: Seq<Service>) -> Seq<u64> {
    ss.map_values(|s: Service| s.supervisor.state_entered)
}

/// The persisted status view of the services.
pub open spec fn spec_statuses(ss: Seq<Service>) -> Seq<crate::status::ServiceStatusView> {
    ss.map_values(
        |s: Service|
            crate::status::ServiceStatusView {
                package: s.pkg@,
                supervisor: crate::status::SupervisorStatus {
                    pid: s.supervisor.pid,
                    state: s.supervisor.state,
                    state_entered: s.supervisor.state_entered,
                },
            },
    )
}

/// Compares two stamp vectors by content.
fn stamps_eq(a: &Vec<u64>, b: &Vec<u64>) -> (r: bool)
    ensures
        r == (a@ == b@),
{
    if a.len() != b.len() {
        return false;
    }
    let mut i: usize = 0;
    while i < a.len()
        invariant
            i <= a@.len(),
            a@.len() == b@.len(),
            forall|j: int| 0 <= j < i ==> a@[j] == b@[j],
        decreases a@.len() - i,
    {
        if a[i] != b[i] {
            return false;
        }
        i = i + 1;
    }
    proof {
        assert(a@ =~= b@);
    }
    true
}

impl Manager {
    /// Walks the services with this tick's update candidates, a map from
    /// spec identifier to the newer installed package the scan found for
    /// it. Returns how many services swapped, which is how many rumors
    /// were reinserted.
    pub fn check_for_updated_packages(&mut self, candidates: &Vec<(PackageIdent, PackageIdent)>)
        -> (r: usize)
        requires
            forall|i: int|
                0 <= i < candidates@.len() ==> (#[trigger] candidates@[i]).1.well_formed(),
            service_groups_unique(old(self).services@),
        ensures
            r == spec_swap_count(old(self).services@, candidates@, old(self).census_ring@),
            r <= old(self).services@.len(),
            r == 0 ==> final(self).gossip == old(self).gossip,
            final(self).services@.len() == old(self).services@.len(),
            forall|i: int|
                0 <= i < final(self).services@.len() ==> {
                    let a = old(self).services@[i];
                    let b = #[trigger] final(self).services@[i];
                    let cand = spec_find_candidate(candidates@, a.spec_ident@);
                    &&& b.spec_ident == a.spec_ident
                    &&& b.group_key == a.group_key
                    &&& b.supervisor == a.supervisor
                    &&& b.start_style == a.start_style
                    &&& b.update_strategy == a.update_strategy
                    &&& (spec_should_swap(a, cand, old(self).census_ring@) ==> b.pkg@
                        == cand.unwrap() && b.pkg.well_formed() && b.incarnation
                        == spec_next_incarnation(old(self).gossip, a) && b.leader
                        == crate::census::spec_group_leader(
                        old(self).census_ring@.entries,
                        a.group_key,
                    ) && spec_lookup_rumor(
                        final(self).gossip.service_store@.map_values(|x: ServiceRumor| x@),
                        a.group_key,
                        old(self).gossip.member_id,
                    ) == Some(spec_to_rumor(b, old(self).gossip.member_id)))
                    &&& (!spec_should_swap(a, cand, old(self).census_ring@) ==> b == a)
                },
            final(self).census_ring == old(self).census_ring,
            final(self).service_states == old(self).service_states,
            final(self).gossip.member_id == old(self).gossip.member_id,
            final(self).gossip.election_store == old(self).gossip.election_store,
            final(self).gossip.update_store == old(self).gossip.update_store,
            final(self).gossip.member_list == old(self).gossip.member_list,
            final(self).gossip.elections_started == old(self).gossip.elections_started,
            final(self).gossip.elections_restarted == old(self).gossip.elections_restarted,
    {
        let ghost orig_s = self.services@;
        let ghost ring0 = self.census_ring@;
        let ghost store0 = self.gossip.service_store@.map_values(|x: ServiceRumor| x@);
        let ghost member0 = self.gossip.member_id;
        let mut work: Vec<Service> = Vec::new();
        core::mem::swap(&mut self.services, &mut work);
        let mut count: usize = 0;
        let n: usize = work.len();
        proof {
            assert(orig_s.len() == n as int);
            assert(orig_s.skip(0) =~= orig_s);
        }
        while work.len() > 0
            invariant
                orig_s.len() <= usize::MAX,
                self.services@.len() + work@.len() == orig_s.len(),
                work@ == orig_s.skip(self.services@.len() as int),
                count <= self.services@.len(),
                count + spec_swap_count(work@, candidates@, ring0) == spec_swap_count(
                    orig_s,
                    candidates@,
                    ring0,
                ),
                self.census_ring@ == ring0,
                service_groups_unique(orig_s),
                member0 == old(self).gossip.member_id,
                store0 == old(self).gossip.service_store@.map_values(|x: ServiceRumor| x@),
                count == 0 ==> self.gossip == old(self).gossip,
                forall|k: int|
                    self.services@.len() <= k < orig_s.len() ==> spec_lookup_rumor(
                        self.gossip.service_store@.map_values(|x: ServiceRumor| x@),
                        (#[trigger] orig_s[k]).group_key,
                        member0,
                    ) == spec_lookup_rumor(store0, orig_s[k].group_key, member0),
                forall|i: int|
                    0 <= i < candidates@.len() ==> (#[trigger] candidates@[i]).1.well_formed(),
                forall|i: int|
                    0 <= i < self.services@.len() ==> {
                        let a = orig_s[i];
                        let b = #[trigger] self.services@[i];
                        let cand = spec_find_candidate(candidates@, a.spec_ident@);
                        &&& b.spec_ident == a.spec_ident
                        &&& b.group_key == a.group_key
                        &&& b.supervisor == a.supervisor
                        &&& b.start_style == a.start_style
                        &&& b.update_strategy == a.update_strategy
                        &&& (spec_should_swap(a, cand, ring0) ==> b.pkg@ == cand.unwrap()
                            && b.pkg.well_formed() && b.incarnation == spec_next_incarnation(
                            old(self).gossip,
                            a,
                        ) && b.leader == crate::census::spec_group_leader(
                            ring0.entries,
                            a.group_key,
                        ) && spec_lookup_rumor(
                            self.gossip.service_store@.map_values(|x: ServiceRumor| x@),
                            a.group_key,
                            member0,
                        ) == Some(spec_to_rumor(b, member0)))
                        &&& (!spec_should_swap(a, cand, ring0) ==> b == a)
                    },
                self.census_ring == old(self).census_ring,
                self.service_states == old(self).service_states,
                self.gossip.member_id == old(self).gossip.member_id,
                self.gossip.election_store == old(self).gossip.election_store,
                self.gossip.update_store == old(self).gossip.update_store,
                self.gossip.member_list == old(self).gossip.member_list,
                self.gossip.elections_started == old(self).gossip.elections_started,
                self.gossip.elections_restarted == old(self).gossip.elections_restarted,
            decreases work@.len(),
        {
            let ghost pre_work = work@;
            let ghost done = self.services@.len() as int;
            let mut svc = work.remove(0);
            proof {
                assert(orig_s.skip(done)[0] == orig_s[done]);
                assert(pre_work[0] == orig_s[done]);
                assert(pre_work.skip(1) =~= work@);
                assert(orig_s.skip(done).skip(1) =~= orig_s.skip(done + 1));
            }
            proof {
                assert(candidates@.skip(0) =~= candidates@);
            }
            let cand = find_candidate_from(candidates, &svc.spec_ident, 0);
            let ghost store_pre = self.gossip.service_store@.map_values(|x: ServiceRumor| x@);
            let swapped = check_for_updated_package(
                &mut self.gossip,
                &mut svc,
                &self.census_ring,
                cand,
            );
            proof {
                if swapped {
                    let rumor = spec_to_rumor(svc, member0);
                    assert(self.gossip.service_store@.map_values(|x: ServiceRumor| x@)
                        == spec_store_insert(store_pre, rumor));
                    assert forall|k: int|
                        0 <= k < orig_s.len() && orig_s[k].group_key != orig_s[done].group_key
                            implies spec_lookup_rumor(
                        spec_store_insert(store_pre, rumor),
                        (#[trigger] orig_s[k]).group_key,
                        member0,
                    ) == spec_lookup_rumor(store_pre, orig_s[k].group_key, member0) by {
                        lemma_lookup_after_insert(store_pre, rumor, orig_s[k].group_key, member0);
                    }
                    lemma_lookup_after_insert(store_pre, rumor, orig_s[done].group_key, member0);
                }
            }
            if swapped {
                count = count + 1;
            }
            self.services.push(svc);
            proof {
                assert(work@ =~= orig_s.skip(self.services@.len() as int));
            }
        }
        proof {
            assert(self.services@.len() == orig_s.len());
            assert(spec_swap_count(work@, candidates@, ring0) == 0);
        }
        count
    }

    /// Whether any service's state-entry stamp moved since the previous
    /// tick; records the stamps it saw for the next comparison.
    pub fn check_for_changed_services(&mut self) -> (r: bool)
        ensures
            r == (spec_stamps(old(self).services@) != old(self).service_states@),
            final(self).service_states@ == spec_stamps(old(self).services@),
            final(self).services == old(self).services,
            final(self).gossip == old(self).gossip,
            final(self).census_ring == old(self).census_ring,
    {
        let mut stamps: Vec<u64> = Vec::new();
        let mut i: usize = 0;
        while i < self.services.len()
            invariant
                i <= self.services@.len(),
                stamps@ == spec_stamps(self.services@).take(i as int),
            decreases self.services@.len() - i,
        {
            stamps.push(self.services[i].supervisor.state_entered);
            proof {
                assert(stamps@ =~= spec_stamps(self.services@).take(i + 1));
            }
            i = i + 1;
        }
        proof {
            assert(stamps@ =~= spec_stamps(self.services@));
        }
        let same = stamps_eq(&stamps, &self.service_states);
        self.service_states = stamps;
        !same
    }

    /// Projects the managed services onto their persisted status form.
    pub fn statuses(&self) -> (r: Vec<crate::status::ServiceStatus>)
        ensures
            r@.map_values(|s: crate::status::ServiceStatus| s@) == spec_statuses(self.services@),
    {
        let mut out: Vec<crate::status::ServiceStatus> = Vec::new();
        let mut i: usize = 0;
        while i < self.services.len()
            invariant
                i <= self.services@.len(),
                out@.len() == i,
                forall|j: int|
                    0 <= j < i ==> (#[trigger] out@[j])@ == spec_statuses(self.services@)[j],
            decreases self.services@.len() - i,
        {
            let svc = &self.services[i];
            let st = crate::status::ServiceStatus {
                package: svc.pkg.clone_ident(),
                supervisor: crate::status::SupervisorStatus {
                    pid: svc.supervisor.pid,
                    state: svc.supervisor.state,
                    state_entered: svc.supervisor.state_entered,
                },
            };
            proof {
                assert(st@ =~= spec_statuses(self.services@)[i as int]);
            }
            out.push(st);
            i = i + 1;
        }
        proof {
            assert(out@.map_values(|s: crate::status::ServiceStatus| s@) =~= spec_statuses(
                self.services@,
            ));
        }
        out
    }

    /// Writes the three snapshots, each by the atomic tmp-then-rename
    /// step: the gossip and census snapshots as the bytes the caller
    /// serialized, the services snapshot as its JSON rendering.
    pub fn persist_state(&self, dir: &mut StateDir, census_bytes: Vec<u8>, butterfly_bytes: Vec<
        u8,
    >)
        requires
            old(dir).data_dir,
            services_well_formed(self.services@),
        ensures
            final(dir).census_dat == Some(census_bytes),
            final(dir).butterfly_dat == Some(butterfly_bytes),
            (final(dir).services_dat matches Some(b) && b@ == crate::status::spec_json_statuses(
                spec_statuses(self.services@),
            )),
            final(dir).no_tmp_files(),
            final(dir).lock == old(dir).lock,
            final(dir).member_id == old(dir).member_id,
            final(dir).data_dir == old(dir).data_dir,
            final(dir).specs_dir == old(dir).specs_dir,
            final(dir).health_files == old(dir).health_files,
    {
        crate::fsstate::persist_census_state(dir, census_bytes);
        crate::fsstate::persist_butterfly_state(dir, butterfly_bytes);
        let sts = self.statuses();
        proof {
            let stv = sts@.map_values(|s: crate::status::ServiceStatus| s@);
            assert forall|i: int|
                0 <= i < stv.len() implies crate::ident::ident_well_formed(
                #[trigger] stv[i].package,
            ) by {
                assert(stv[i].package == self.services@[i].pkg@);
                assert(self.services@[i].pkg.well_formed());
            }
        }
        let js = crate::status::render_services_json(&sts);
        crate::fsstate::persist_services_state(dir, js);
    }

    /// Drains every service through a stop, returns the spec files that
    /// removed transient services leave to unlink, and releases the
    /// process lock.
    pub fn shutdown(&mut self, dir: &mut StateDir, now: u64) -> (unlink: Vec<String>)
        requires
            states_at_most(old(self).services@, now),
        ensures
            unlink@.map_values(|n: String| n@) == spec_transient_names(old(self).services@),
            final(self).services@.len() == 0,
            final(dir).lock is None,
            final(dir).member_id == old(dir).member_id,
            final(dir).data_dir == old(dir).data_dir,
            final(dir).specs_dir == old(dir).specs_dir,
            final(dir).butterfly_dat == old(dir).butterfly_dat,
            final(dir).census_dat == old(dir).census_dat,
            final(dir).services_dat == old(dir).services_dat,
            final(self).gossip == old(self).gossip,
            final(self).census_ring == old(self).census_ring,
    {
        let mut unlink: Vec<String> = Vec::new();
        proof {
            assert(old(self).services@.skip(0) =~= old(self).services@);
        }
        while self.services.len() > 0
            invariant
                states_at_most(self.services@, now),
                unlink@.map_values(|n: String| n@) + spec_transient_names(self.services@)
                    == spec_transient_names(old(self).services@),
                self.gossip == old(self).gossip,
                self.census_ring == old(self).census_ring,
            decreases self.services@.len(),
        {
            let ghost pre = self.services@;
            let mut svc = self.services.remove(0);
            proof {
                assert(self.services@ =~= pre.skip(1));
            }
            let transient = self.remove_service(&mut svc, now);
            if transient {
                let sp = svc.to_spec();
                unlink.push(sp.file_name());
            }
            proof {
                assert(unlink@.map_values(|n: String| n@) + spec_transient_names(self.services@)
                    =~= spec_transient_names(old(self).services@));
            }
        }
        proof {
            assert(spec_transient_names(self.services@) =~= Seq::<Seq<char>>::empty());
            assert(unlink@.map_values(|n: String| n@) =~= spec_transient_names(
                old(self).services@,
            ));
        }
        crate::pidlock::release_process_lock(dir);
        unlink
    }
}

/// The spec files the transient services among `ss` are stored under,
/// in service order.
pub open spec fn spec_transient_names(ss: Seq<Service>) -> Seq<Seq<char>>
    decreases ss.len(),
{
    if ss.len() == 0 {
        Seq::empty()
    } else {
        let rest = spec_transient_names(ss.skip(1));
        if ss[0].start_style == StartStyle::Transient {
            seq![ss[0].spec_ident.name@ + ".spec"@] + rest
        } else {
            rest
        }
    }
}

/// The spec files one reconciliation pass asks the shell to unlink: for
/// each removal event in order, the file of the service it removed,
/// when that service was transient.
pub open spec fn spec_reconcile_names(ss: Seq<Service>, evs: Seq<SpecWatcherEvent>) -> Seq<
    Seq<char>,
>
    decreases evs.len(),
{
    if evs.len() == 0 {
        Seq::empty()
    } else {
        match evs[0] {
            SpecWatcherEvent::AddService(_) => spec_reconcile_names(ss, evs.skip(1)),
            SpecWatcherEvent::RemoveService(sp) => match spec_find_service(ss, sp.ident@) {
                None => spec_reconcile_names(ss, evs.skip(1)),
                Some(j) => {
                    let rest = spec_reconcile_names(ss.remove(j), evs.skip(1));
                    if ss[j].start_style == StartStyle::Transient {
                        seq![sp.ident.name@ + ".spec"@] + rest
                    } else {
                        rest
                    }
                },
            },
        }
    }
}

/// The census entries an event envelope reports: each managed
/// service's own entry in its group, in service order.
pub open spec fn spec_event_entries(
    ss: Seq<Service>,
    ring: crate::census::CensusRingView,
) -> Seq<crate::census::CensusEntryView>
    decreases ss.len(),
{
    if ss.len() == 0 {
        Seq::empty()
    } else {
        let rest = spec_event_entries(ss.skip(1), ring);
        match spec_me(ring.entries, ring.local_member, ss[0].group_key) {
            Some(e) => seq![e] + rest,
            None => rest,
        }
    }
}

/// What one tick decided: whether to exit, which specs the shell must
/// load and hand to `add_service`, which spec files removed transient
/// services leave to unlink, how many services took an update, whether
/// an event envelope is due, and the rumor-offset contribution the next
/// tick's census fold must see.
pub struct TickOutcome {
    pub shutdown: bool,
    pub specs_to_load: Vec<ServiceSpec>,
    pub spec_files_to_unlink: Vec<String>,
    pub updated_services: usize,
    pub emit_event: bool,
    pub rumor_offset: u64,
}

impl Manager {
    /// One tick of the run loop, in order: handle a pending signal (a
    /// shutdown stops every service and preempts the rest), reconcile
    /// the spec events, scan for package updates, ask the gossip layer
    /// to restart any stalled elections, refold the census from the
    /// rumor stores, detect changed services, persist the snapshots
    /// when the state is dirty or the census changed, and give every
    /// service its tick against the fresh census.
    pub fn run_tick(
        &mut self,
        dir: &mut StateDir,
        signal: Option<SignalEvent>,
        events: Vec<SpecWatcherEvent>,
        candidates: &Vec<(PackageIdent, PackageIdent)>,
        census_bytes: Vec<u8>,
        butterfly_bytes: Vec<u8>,
        offset_in: u64,
        now: u64,
    ) -> (r: TickOutcome)
        requires
            old(dir).data_dir,
            services_unique(old(self).services@),
            service_groups_unique(old(self).services@),
            states_at_most(old(self).services@, now),
            services_well_formed(old(self).services@),
            forall|i: int|
                0 <= i < candidates@.len() ==> (#[trigger] candidates@[i]).1.well_formed(),
            offset_in <= u64::MAX - old(self).services@.len(),
        ensures
            r.shutdown == (signal == Some(SignalEvent::Shutdown)),
            r.shutdown ==> *final(dir) == *old(dir) && final(self).services@.len() == old(self).services@.len()
                && forall|i: int|
                    0 <= i < final(self).services@.len()
                        ==> (#[trigger] final(self).services@[i]).supervisor == (Supervisor {
                        pid: None,
                        state: ProcessState::Down,
                        state_entered: now,
                    }),
            !r.shutdown ==> {
                &&& r.specs_to_load@ == spec_specs_to_load(events@)
                &&& r.spec_files_to_unlink@.map_values(|n: String| n@) == spec_reconcile_names(
                    old(self).services@,
                    events@,
                )
                &&& forall|e: int|
                    0 <= e < events@.len() ==> match #[trigger] events@[e] {
                        SpecWatcherEvent::RemoveService(s) => !spec_has_service(
                            final(self).services@,
                            s.ident@,
                        ),
                        SpecWatcherEvent::AddService(_) => true,
                    }
                &&& final(self).census_ring@ == crate::census::spec_fold(
                    old(self).census_ring@,
                    (offset_in + r.updated_services) as u64,
                    final(self).gossip.service_store@.map_values(|x: ServiceRumor| x@),
                    final(self).gossip.member_list@,
                    final(self).gossip.election_store@,
                    final(self).gossip.update_store@,
                )
                &&& final(self).service_states@ == spec_stamps(final(self).services@)
                &&& ({
                    let dirty = spec_stamps(final(self).services@) != old(self).service_states@;
                    let changed = final(self).census_ring@.changed;
                    &&& ((dirty || changed) ==> (final(dir).census_dat == Some(census_bytes)
                        && final(dir).butterfly_dat == Some(butterfly_bytes) && (final(dir).services_dat matches Some(b) && b@ == crate::status::spec_json_statuses(
                        spec_statuses(final(self).services@),
                    )) && final(dir).no_tmp_files()))
                    &&& (!(dirty || changed) ==> *final(dir) == *old(dir))
                })
                &&& final(self).gossip.elections_restarted == (if old(self).gossip.elections_restarted < u64::MAX {
                    (old(self).gossip.elections_restarted + 1) as u64
                } else {
                    old(self).gossip.elections_restarted
                })
                &&& r.emit_event == final(self).census_ring@.changed
                &&& r.rumor_offset == (if final(self).census_ring@.changed {
                    final(self).services@.len() as u64
                } else {
                    0u64
                })
                &&& services_unique(final(self).services@)
                &&& states_at_most(final(self).services@, now)
            },
    {
        if self.check_for_incoming_signals(signal, now) {
            return TickOutcome {
                shutdown: true,
                specs_to_load: Vec::new(),
                spec_files_to_unlink: Vec::new(),
                updated_services: 0,
                emit_event: false,
                rumor_offset: 0,
            };
        }
        let ghost s0 = self.services@;
        let (specs_to_load, spec_files_to_unlink) = self.update_running_services_from_watcher(
            events,
            now,
        );
        let ghost s1 = self.services@;
        let updated = self.check_for_updated_packages(candidates);
        let ghost s2 = self.services@;
        self.gossip.restart_elections();
        proof {
            assert forall|idv: crate::ident::IdentView|
                #[trigger] spec_has_service(s2, idv) implies spec_has_service(s1, idv) by {
                let w = choose|i: int|
                    0 <= i < s2.len() && (#[trigger] s2[i].spec_ident)@ == idv;
                assert(s2[w].spec_ident == s1[w].spec_ident);
                assert((s1[w].spec_ident)@ == idv);
            }
            assert forall|m: int, n: int|
                0 <= m < n < s2.len() implies (#[trigger] s2[m].spec_ident)@ != (
            #[trigger] s2[n].spec_ident)@ by {
                assert(s2[m].spec_ident == s1[m].spec_ident);
                assert(s2[n].spec_ident == s1[n].spec_ident);
            }
            assert forall|i: int|
                0 <= i < s2.len() implies (#[trigger] s2[i]).supervisor.state_entered <= now by {
                assert(s2[i].supervisor == s1[i].supervisor);
                assert(s1[i].supervisor.state_entered <= now);
            }
            assert forall|i: int| 0 <= i < s2.len() implies (#[trigger] s2[i]).pkg.well_formed() by {
                let a = s1[i];
                let cand = spec_find_candidate(candidates@, a.spec_ident@);
                if spec_should_swap(a, cand, old(self).census_ring@) {
                } else {
                    assert(s2[i] == a);
                    assert(a.pkg.well_formed());
                }
            }
        }
        proof {
            assert(updated <= s1.len() <= s0.len());
        }
        let fold_offset = offset_in + (updated as u64);
        self.census_ring.update_from_rumors(
            fold_offset,
            &self.gossip.service_store,
            &self.gossip.election_store,
            &self.gossip.update_store,
            &self.gossip.member_list,
        );
        let dirty = self.check_for_changed_services();
        let changed = self.census_ring.changed;
        if dirty || changed {
            self.persist_state(dir, census_bytes, butterfly_bytes);
        }
        let ghost s3 = self.services@;
        let ghost ring_after = self.census_ring@;
        let ghost gossip_after = self.gossip;
        let ghost states_after = self.service_states@;
        let mut work: Vec<Service> = Vec::new();
        core::mem::swap(&mut self.services, &mut work);
        let mut offset_out: u64 = 0;
        let n: usize = work.len();
        proof {
            assert(s3.len() == n as int);
            assert(s3.skip(0) =~= s3);
        }
        while work.len() > 0
            invariant
                s3.len() <= usize::MAX,
                self.services@.len() + work@.len() == s3.len(),
                work@ == s3.skip(self.services@.len() as int),
                offset_out == (if self.census_ring@.changed {
                    self.services@.len() as u64
                } else {
                    0u64
                }),
                forall|i: int|
                    0 <= i < self.services@.len() ==> {
                        let a = s3[i];
                        let b = #[trigger] self.services@[i];
                        &&& b.spec_ident == a.spec_ident
                        &&& b.pkg == a.pkg
                        &&& b.supervisor == a.supervisor
                        &&& b.group_key == a.group_key
                        &&& b.start_style == a.start_style
                        &&& b.update_strategy == a.update_strategy
                    },
                self.census_ring@ == ring_after,
                self.gossip == gossip_after,
                self.service_states@ == states_after,
            decreases work@.len(),
        {
            let ghost pre_work = work@;
            let ghost done = self.services@.len() as int;
            let mut svc = work.remove(0);
            proof {
                assert(s3.skip(done)[0] == s3[done]);
                assert(pre_work[0] == s3[done]);
                assert(pre_work.skip(1) =~= work@);
                assert(s3.skip(done).skip(1) =~= s3.skip(done + 1));
            }
            let bumped = svc.tick(&self.census_ring);
            if bumped {
                offset_out = offset_out + 1;
            }
            self.services.push(svc);
            proof {
                assert(work@ =~= s3.skip(self.services@.len() as int));
            }
        }
        proof {
            assert(self.services@.len() == s3.len());
            let sf = self.services@;
            assert(spec_stamps(sf) =~= spec_stamps(s3)) by {
                assert(forall|i: int|
                    0 <= i < sf.len() ==> (#[trigger] sf[i]).supervisor == s3[i].supervisor);
            }
            assert(spec_statuses(sf) =~= spec_statuses(s3)) by {
                assert forall|i: int|
                    0 <= i < sf.len() implies #[trigger] spec_statuses(sf)[i] == spec_statuses(
                    s3,
                )[i] by {
                    assert(sf[i].supervisor == s3[i].supervisor);
                    assert(sf[i].pkg == s3[i].pkg);
                }
            }
            assert forall|idv: crate::ident::IdentView|
                #[trigger] spec_has_service(sf, idv) implies spec_has_service(s2, idv) by {
                let w = choose|i: int|
                    0 <= i < sf.len() && (#[trigger] sf[i].spec_ident)@ == idv;
                assert(sf[w].spec_ident == s3[w].spec_ident);
                assert(s3[w] == s2[w]);
                assert((s2[w].spec_ident)@ == idv);
            }
            assert forall|m: int, n: int|
                0 <= m < n < sf.len() implies (#[trigger] sf[m].spec_ident)@ != (
            #[trigger] sf[n].spec_ident)@ by {
                assert(sf[m].spec_ident == s3[m].spec_ident && s3[m] == s2[m]);
                assert(sf[n].spec_ident == s3[n].spec_ident && s3[n] == s2[n]);
            }
            assert forall|i: int|
                0 <= i < sf.len() implies (#[trigger] sf[i]).supervisor.state_entered <= now by {
                assert(sf[i].supervisor == s3[i].supervisor && s3[i] == s2[i]);
                assert(s2[i].supervisor.state_entered <= now);
            }
        }
        TickOutcome {
            shutdown: false,
            specs_to_load,
            spec_files_to_unlink,
            updated_services: updated,
            emit_event: changed,
            rumor_offset: offset_out,
        }
    }

    /// Selects what an event envelope carries: for each managed service,
    /// this supervisor's own entry in that service's census group.
    pub fn event_entries(&self) -> (r: Vec<crate::census::CensusEntry>)
        ensures
            r@.map_values(|e: crate::census::CensusEntry| e@) == spec_event_entries(
                self.services@,
                self.census_ring@,
            ),
    {
        let ghost all = self.services@;
        let mut out: Vec<crate::census::CensusEntry> = Vec::new();
        let mut i: usize = 0;
        proof {
            assert(all.skip(0) =~= all);
        }
        while i < self.services.len()
            invariant
                i <= self.services@.len(),
                all == self.services@,
                out@.map_values(|e: crate::census::CensusEntry| e@) + spec_event_entries(
                    all.skip(i as int),
                    self.census_ring@,
                ) == spec_event_entries(all.skip(0), self.census_ring@),
            decreases self.services@.len() - i,
        {
            proof {
                assert(all.skip(i as int)[0] == all[i as int]);
                assert(all.skip(i as int).skip(1) =~= all.skip(i as int + 1));
            }
            match self.census_ring.me(self.services[i].group_key) {
                Some(entry) => {
                    let copied = crate::census::clone_entry(entry);
                    out.push(copied);
                    proof {
                        assert(out@.map_values(|e: crate::census::CensusEntry| e@)
                            + spec_event_entries(all.skip(i as int + 1), self.census_ring@)
                            =~= spec_event_entries(all.skip(0), self.census_ring@));
                    }
                },
                None => {},
            }
            i = i + 1;
        }
        proof {
            assert(spec_event_entries(all.skip(i as int), self.census_ring@) =~= Seq::<
                crate::census::CensusEntryView,
            >::empty());
            assert(out@.map_values(|e: crate::census::CensusEntry| e@) =~= spec_event_entries(
                all.skip(0),
                self.census_ring@,
            ));
            assert(all.skip(0) =~= all);
        }
        out
    }
}

} // verus!
