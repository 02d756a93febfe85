//! The census: a deterministic fold of the gossiped rumor stores and the
//! membership list into one entry per service rumor, with leadership and
//! liveness resolved. Identifiers handed out by the gossip layer are
//! carried as opaque integer keys.
use vstd::prelude::*;
use vstd::string::*;

verus! {

/// A service-presence rumor: member `member` runs package `pkg` in group
/// `group` with configuration `cfg`.
pub struct ServiceRumor {
    pub group: u64,
    pub member: u64,
    pub incarnation: u64,
    pub pkg: String,
    pub cfg: Vec<u8>,
}

/// The mathematical value of a service rumor.
#[verifier::ext_equal]
pub struct ServiceRumorView {
    pub group: u64,
    pub member: u64,
    pub incarnation: u64,
    pub pkg: Seq<char>,
    pub cfg: Seq<u8>,
}

impl View for ServiceRumor {
    type V = ServiceRumorView;

    open spec fn view(&self) -> ServiceRumorView {
        ServiceRumorView {
            group: self.group,
            member: self.member,
            incarnation: self.incarnation,
            pkg: self.pkg@,
            cfg: self.cfg@,
        }
    }
}

/// An election rumor for a group; `finished` is true once the election
/// settled on `leader`.
#[derive(Clone, Copy, PartialEq, Eq, Structural, Debug)]
pub struct ElectionRumor {
    pub group: u64,
    pub leader: u64,
    pub finished: bool,
}

/// One entry of the membership list at snapshot time.
#[derive(Clone, Copy, PartialEq, Eq, Structural, Debug)]
pub struct Member {
    pub id: u64,
    pub alive: bool,
}

/// One member's standing in one service group after a fold.
pub struct CensusEntry {
    pub group: u64,
    pub member_id: u64,
    pub alive: bool,
    pub incarnation: u64,
    pub pkg: String,
    pub cfg: Vec<u8>,
    pub leader: bool,
    pub update_leader: bool,
}

/// The mathematical value of a census entry.
#[verifier::ext_equal]
pub struct CensusEntryView {
    pub group: u64,
    pub member_id: u64,
    pub alive: bool,
    pub incarnation: u64,
    pub pkg: Seq<char>,
    pub cfg: Seq<u8>,
    pub leader: bool,
    pub update_leader: bool,
}

impl View for CensusEntry {
    type V = CensusEntryView;

    open spec fn view(&self) -> CensusEntryView {
        CensusEntryView {
            group: self.group,
            member_id: self.member_id,
            alive: self.alive,
            incarnation: self.incarnation,
            pkg: self.pkg@,
            cfg: self.cfg@,
            leader: self.leader,
            update_leader: self.update_leader,
        }
    }
}

/// Strict ordering of rumor keys: by group, then by member.
pub open spec fn rumor_key_lt(a: ServiceRumorView, b: ServiceRumorView) -> bool {
    a.group < b.group || (a.group == b.group && a.member < b.member)
}

/// A store holds its rumors in strictly increasing key order; keys are
/// then unique.
pub open spec fn store_sorted(s: Seq<ServiceRumorView>) -> bool {
    forall|i: int, j: int| 0 <= i < j < s.len() ==> rumor_key_lt(#[trigger] s[i], #[trigger] s[j])
}

/// Liveness of `id` according to the first matching membership entry.
pub open spec fn spec_member_alive(members: Seq<Member>, id: u64) -> bool
    decreases members.len(),
{
    if members.len() == 0 {
        false
    } else if members[0].id == id {
        members[0].alive
    } else {
        spec_member_alive(members.skip(1), id)
    }
}

/// The leader of `group` according to the first finished election rumor,
/// if any.
pub open spec fn spec_election_leader(elections: Seq<ElectionRumor>, group: u64) -> Option<u64>
    decreases elections.len(),
{
    if elections.len() == 0 {
        None
    } else if elections[0].group == group && elections[0].finished {
        Some(elections[0].leader)
    } else {
        spec_election_leader(elections.skip(1), group)
    }
}

/// How one service rumor folds into a census entry: liveness comes from
/// the membership list, leadership flags from the two election stores.
pub open spec fn spec_entry(
    r: ServiceRumorView,
    members: Seq<Member>,
    elections: Seq<ElectionRumor>,
    updates: Seq<ElectionRumor>,
) -> CensusEntryView {
    CensusEntryView {
        group: r.group,
        member_id: r.member,
        alive: spec_member_alive(members, r.member),
        incarnation: r.incarnation,
        pkg: r.pkg,
        cfg: r.cfg,
        leader: spec_election_leader(elections, r.group) == Some(r.member),
        update_leader: spec_election_leader(updates, r.group) == Some(r.member),
    }
}

/// The whole fold: one census entry per service rumor, in store order.
pub open spec fn spec_census(
    rumors: Seq<ServiceRumorView>,
    members: Seq<Member>,
    elections: Seq<ElectionRumor>,
    updates: Seq<ElectionRumor>,
) -> Seq<CensusEntryView> {
    Seq::new(rumors.len(), |i: int| spec_entry(rumors[i], members, elections, updates))
}

/// The mathematical value of the census ring.
#[verifier::ext_equal]
pub struct CensusRingView {
    pub local_member: u64,
    pub entries: Seq<CensusEntryView>,
    pub changed: bool,
    pub last_offset: u64,
}

/// One fold step at the specification level: the entries become the fold
/// of the inputs, and `changed` records whether they differ from the
/// entries of the previous tick.
pub open spec fn spec_fold(
    ring: CensusRingView,
    offset: u64,
    rumors: Seq<ServiceRumorView>,
    members: Seq<Member>,
    elections: Seq<ElectionRumor>,
    updates: Seq<ElectionRumor>,
) -> CensusRingView {
    CensusRingView {
        local_member: ring.local_member,
        entries: spec_census(rumors, members, elections, updates),
        changed: spec_census(rumors, members, elections, updates) != ring.entries,
        last_offset: offset,
    }
}

/// The local view of the cluster's service topology, refreshed once per
/// tick from the rumor stores.
pub struct CensusRing {
    pub local_member: u64,
    pub entries: Vec<CensusEntry>,
    pub changed: bool,
    pub last_offset: u64,
}

impl View for CensusRing {
    type V = CensusRingView;

    open spec fn view(&self) -> CensusRingView {
        CensusRingView {
            local_member: self.local_member,
            entries: self.entries@.map_values(|e: CensusEntry| e@),
            changed: self.changed,
            last_offset: self.last_offset,
        }
    }
}

/// Compares two byte buffers by content.
pub fn bytes_eq(a: &Vec<u8>, b: &Vec<u8>) -> (r: bool)
    ensures
        r == (a@ == b@),
{
    if a.len() != b.len() {
        return false;
    }
    let mut i: usize = 0;
    while i < a.len()
        invariant
            i <= a@.len(),
            a@.len() == b@.len(),
            forall|j: int| 0 <= j < i ==> a@[j] == b@[j],
        decreases a@.len() - i,
    {
        if a[i] != b[i] {
            return false;
        }
        i = i + 1;
    }
    proof {
        assert(a@ =~= b@);
    }
    true
}

fn member_alive_from(members: &Vec<Member>, id: u64, i: usize) -> (r: bool)
    requires
        i <= members@.len(),
    ensures
        r == spec_member_alive(members@.skip(i as int), id),
    decreases members@.len() - i,
{
    if i == members.len() {
        false
    } else {
        let m = members[i];
        proof {
            assert(members@.skip(i as int)[0] == members@[i as int]);
            assert(members@.skip(i as int).skip(1) =~= members@.skip(i as int + 1));
        }
        if m.id == id {
            m.alive
        } else {
            member_alive_from(members, id, i + 1)
        }
    }
}

/// Liveness lookup in the membership list, first match wins.
pub fn member_alive(members: &Vec<Member>, id: u64) -> (r: bool)
    ensures
        r == spec_member_alive(members@, id),
{
    let r = member_alive_from(members, id, 0);
    proof {
        assert(members@.skip(0) =~= members@);
    }
    r
}

fn election_leader_from(elections: &Vec<ElectionRumor>, group: u64, i: usize) -> (r: Option<u64>)
    requires
        i <= elections@.len(),
    ensures
        r == spec_election_leader(elections@.skip(i as int), group),
    decreases elections@.len() - i,
{
    if i == elections.len() {
        None
    } else {
        let e = elections[i];
        proof {
            assert(elections@.skip(i as int)[0] == elections@[i as int]);
            assert(elections@.skip(i as int).skip(1) =~= elections@.skip(i as int + 1));
        }
        if e.group == group && e.finished {
            Some(e.leader)
        } else {
            election_leader_from(elections, group, i + 1)
        }
    }
}

/// The settled leader for `group`, if one finished election names it.
pub fn election_leader(elections: &Vec<ElectionRumor>, group: u64) -> (r: Option<u64>)
    ensures
        r == spec_election_leader(elections@, group),
{
    let r = election_leader_from(elections, group, 0);
    proof {
        assert(elections@.skip(0) =~= elections@);
    }
    r
}

/// Folds one service rumor into its census entry.
fn entry_for(
    rumor: &ServiceRumor,
    members: &Vec<Member>,
    elections: &Vec<ElectionRumor>,
    updates: &Vec<ElectionRumor>,
) -> (r: CensusEntry)
    ensures
        r@ == spec_entry(rumor@, members@, elections@, updates@),
{
    let leader = match election_leader(elections, rumor.group) {
        Some(l) => l == rumor.member,
        None => false,
    };
    let update_leader = match election_leader(updates, rumor.group) {
        Some(l) => l == rumor.member,
        None => false,
    };
    let r = CensusEntry {
        group: rumor.group,
        member_id: rumor.member,
        alive: member_alive(members, rumor.member),
        incarnation: rumor.incarnation,
        pkg: rumor.pkg.clone(),
        cfg: crate::fsstate::copy_bytes(&rumor.cfg),
        leader,
        update_leader,
    };
    proof {
        assert(r@ =~= spec_entry(rumor@, members@, elections@, updates@));
    }
    r
}

/// Copies a census entry, preserving its value.
pub fn clone_entry(e: &CensusEntry) -> (r: CensusEntry)
    ensures
        r@ == e@,
{
    let r = CensusEntry {
        group: e.group,
        member_id: e.member_id,
        alive: e.alive,
        incarnation: e.incarnation,
        pkg: e.pkg.clone(),
        cfg: crate::fsstate::copy_bytes(&e.cfg),
        leader: e.leader,
        update_leader: e.update_leader,
    };
    assert(r@ =~= e@);
    r
}

/// Compares two census entries by value.
pub fn entry_eq(a: &CensusEntry, b: &CensusEntry) -> (r: bool)
    ensures
        r == (a@ == b@),
{
    let r = a.group == b.group && a.member_id == b.member_id && a.alive == b.alive
        && a.incarnation == b.incarnation && a.pkg.eq(&b.pkg) && bytes_eq(&a.cfg, &b.cfg)
        && a.leader == b.leader && a.update_leader == b.update_leader;
    proof {
        if r {
            assert(a@ =~= b@);
        }
    }
    r
}

fn entries_eq(a: &Vec<CensusEntry>, b: &Vec<CensusEntry>) -> (r: bool)
    ensures
        r == (a@.map_values(|e: CensusEntry| e@) == b@.map_values(|e: CensusEntry| e@)),
{
    let ghost av = a@.map_values(|e: CensusEntry| e@);
    let ghost bv = b@.map_values(|e: CensusEntry| e@);
    if a.len() != b.len() {
        proof {
            assert(av.len() != bv.len());
        }
        return false;
    }
    let mut i: usize = 0;
    while i < a.len()
        invariant
            i <= a@.len(),
            a@.len() == b@.len(),
            av == a@.map_values(|e: CensusEntry| e@),
            bv == b@.map_values(|e: CensusEntry| e@),
            forall|j: int| 0 <= j < i ==> av[j] == bv[j],
        decreases a@.len() - i,
    {
        if !entry_eq(&a[i], &b[i]) {
            proof {
                assert(av[i as int] != bv[i as int]);
            }
            return false;
        }
        i = i + 1;
    }
    proof {
        assert(av =~= bv);
    }
    true
}

impl CensusRing {
    /// An empty ring for the given local member.
    pub fn new(local_member: u64) -> (r: CensusRing)
        ensures
            r@.local_member == local_member,
            r@.entries.len() == 0,
            !r@.changed,
            r@.last_offset == 0,
    {
        CensusRing { local_member, entries: Vec::new(), changed: false, last_offset: 0 }
    }

    /// Refolds the ring from the rumor stores and the membership list.
    /// The result is a pure function of the inputs; `changed` reports
    /// whether the folded entries differ from the previous tick's.
    pub fn update_from_rumors(
        &mut self,
        offset: u64,
        service_store: &Vec<ServiceRumor>,
        elections: &Vec<ElectionRumor>,
        updates: &Vec<ElectionRumor>,
        members: &Vec<Member>,
    )
        ensures
            final(self)@ == spec_fold(
                old(self)@,
                offset,
                service_store@.map_values(|r: ServiceRumor| r@),
                members@,
                elections@,
                updates@,
            ),
    {
        let ghost rumors = service_store@.map_values(|r: ServiceRumor| r@);
        let ghost target = spec_census(rumors, members@, elections@, updates@);
        let mut new_entries: Vec<CensusEntry> = Vec::new();
        let mut i: usize = 0;
        while i < service_store.len()
            invariant
                i <= service_store@.len(),
                rumors == service_store@.map_values(|r: ServiceRumor| r@),
                target == spec_census(rumors, members@, elections@, updates@),
                new_entries@.len() == i,
                new_entries@.map_values(|e: CensusEntry| e@) == target.take(i as int),
            decreases service_store@.len() - i,
        {
            let e = entry_for(&service_store[i], members, elections, updates);
            new_entries.push(e);
            proof {
                assert(new_entries@.map_values(|e: CensusEntry| e@) =~= target.take(i + 1));
            }
            i = i + 1;
        }
        proof {
            assert(target.take(service_store@.len() as int) =~= target);
        }
        let unchanged = entries_eq(&new_entries, &self.entries);
        self.entries = new_entries;
        self.changed = !unchanged;
        self.last_offset = offset;
        proof {
            assert(final(self)@ =~= spec_fold(old(self)@, offset, rumors, members@, elections@,
            updates@));
        }
    }

    /// The leader flagged for `group` among the folded entries, if any.
    pub fn census_group_leader(&self, group: u64) -> (r: Option<u64>)
        ensures
            r == spec_group_leader(self@.entries, group),
    {
        let r = group_leader_from(&self.entries, group, 0);
        proof {
            assert(self@.entries.skip(0) =~= self@.entries);
        }
        r
    }

    /// This supervisor's own entry in `group`, if the fold produced one.
    pub fn me(&self, group: u64) -> (r: Option<&CensusEntry>)
        ensures
            match r {
                Some(e) => spec_me(self@.entries, self@.local_member, group) == Some(e@),
                None => spec_me(self@.entries, self@.local_member, group) is None,
            },
    {
        let r = me_from(&self.entries, self.local_member, group, 0);
        proof {
            assert(self@.entries.skip(0) =~= self@.entries);
        }
        r
    }
}

/// The member flagged leader of `group`, first match in entry order.
pub open spec fn spec_group_leader(entries: Seq<CensusEntryView>, group: u64) -> Option<u64>
    decreases entries.len(),
{
    if entries.len() == 0 {
        None
    } else if entries[0].group == group && entries[0].leader {
        Some(entries[0].member_id)
    } else {
        spec_group_leader(entries.skip(1), group)
    }
}

/// The entry of member `me` in `group`, if present.
pub open spec fn spec_me(entries: Seq<CensusEntryView>, me: u64, group: u64) -> Option<
    CensusEntryView,
>
    decreases entries.len(),
{
    if entries.len() == 0 {
        None
    } else if entries[0].group == group && entries[0].member_id == me {
        Some(entries[0])
    } else {
        spec_me(entries.skip(1), me, group)
    }
}

fn group_leader_from(entries: &Vec<CensusEntry>, group: u64, i: usize) -> (r: Option<u64>)
    requires
        i <= entries@.len(),
    ensures
        r == spec_group_leader(entries@.map_values(|e: CensusEntry| e@).skip(i as int), group),
    decreases entries@.len() - i,
{
    let ghost ev = entries@.map_values(|e: CensusEntry| e@);
    if i == entries.len() {
        None
    } else {
        proof {
            assert(ev.skip(i as int)[0] == ev[i as int]);
            assert(ev.skip(i as int).skip(1) =~= ev.skip(i as int + 1));
        }
        if entries[i].group == group && entries[i].leader {
            Some(entries[i].member_id)
        } else {
            group_leader_from(entries, group, i + 1)
        }
    }
}

fn me_from(entries: &Vec<CensusEntry>, me: u64, group: u64, i: usize) -> (r: Option<&CensusEntry>)
    requires
        i <= entries@.len(),
    ensures
        match r {
            Some(e) => spec_me(entries@.map_values(|e: CensusEntry| e@).skip(i as int), me, group)
                == Some(e@),
            None => spec_me(entries@.map_values(|e: CensusEntry| e@).skip(i as int), me, group)
                is None,
        },
    decreases entries@.len() - i,
{
    let ghost ev = entries@.map_values(|e: CensusEntry| e@);
    if i == entries.len() {
        None
    } else {
        proof {
            assert(ev.skip(i as int)[0] == ev[i as int]);
            assert(ev.skip(i as int).skip(1) =~= ev.skip(i as int + 1));
        }
        if entries[i].group == group && entries[i].member_id == me {
            Some(&entries[i])
        } else {
            me_from(entries, me, group, i + 1)
        }
    }
}

/// The fold keeps store order one to one, so over a key-ordered rumor
/// store the entries of each group sit together and ascend by member
/// id within the group.
pub proof fn lemma_census_entry_order(
    rumors: Seq<ServiceRumorView>,
    members: Seq<Member>,
    elections: Seq<ElectionRumor>,
    updates: Seq<ElectionRumor>,
)
    requires
        store_sorted(rumors),
    ensures
        ({
            let entries = spec_census(rumors, members, elections, updates);
            forall|i: int, j: int|
                0 <= i < j < entries.len() ==> ((#[trigger] entries[i]).group < (
                #[trigger] entries[j]).group || (entries[i].group == entries[j].group
                    && entries[i].member_id < entries[j].member_id))
        }),
{
    let entries = spec_census(rumors, members, elections, updates);
    assert forall|i: int, j: int|
        0 <= i < j < entries.len() implies ((#[trigger] entries[i]).group < (
    #[trigger] entries[j]).group || (entries[i].group == entries[j].group
        && entries[i].member_id < entries[j].member_id)) by {
        assert(rumor_key_lt(rumors[i], rumors[j]));
    }
}

/// Two ticks over identical rumor stores and member lists leave the ring
/// unchanged: after the second fold, `changed` is false.
pub proof fn lemma_census_fold_stable(
    ring: CensusRingView,
    o1: u64,
    o2: u64,
    rumors: Seq<ServiceRumorView>,
    members: Seq<Member>,
    elections: Seq<ElectionRumor>,
    updates: Seq<ElectionRumor>,
)
    ensures
        !spec_fold(
            spec_fold(ring, o1, rumors, members, elections, updates),
            o2,
            rumors,
            members,
            elections,
            updates,
        ).changed,
{
}

} // verus!
