//! One supervised service: its on-disk spec, its runtime process state,
//! and the transitions the manager drives it through.
use vstd::prelude::*;
use vstd::string::*;
use crate::census::CensusRing;
use crate::census::spec_group_leader;
use crate::ident::PackageIdent;
use crate::ident::ServiceGroup;

verus! {

#[derive(Clone, Copy, PartialEq, Eq, Structural, Debug)]
pub enum Topology {
    Standalone,
    Leader,
}

#[derive(Clone, Copy, PartialEq, Eq, Structural, Debug)]
pub enum UpdateStrategy {
    NoUpdate,
    AtOnce,
    Rolling,
}

#[derive(Clone, Copy, PartialEq, Eq, Structural, Debug)]
pub enum DesiredState {
    Up,
    Down,
}

#[derive(Clone, Copy, PartialEq, Eq, Structural, Debug)]
pub enum StartStyle {
    Persistent,
    Transient,
}

#[derive(Clone, Copy, PartialEq, Eq, Structural, Debug)]
pub enum ProcessState {
    Down,
    Up,
    Restarting,
}

/// The persisted declaration of a desired service.
pub struct ServiceSpec {
    pub ident: PackageIdent,
    pub group: String,
    pub topology: Topology,
    pub update_strategy: UpdateStrategy,
    pub desired_state: DesiredState,
    pub start_style: StartStyle,
    /// Bind expressions `name:group.service`.
    pub binds: Vec<String>,
    /// Raw configuration override bytes, when the spec carries one.
    pub config: Option<Vec<u8>>,
}

impl ServiceSpec {
    /// The basename a spec is stored under: `<ident.name>.spec`.
    pub fn file_name(&self) -> (r: String)
        ensures
            r@ == self.ident.name@ + ".spec"@,
    {
        let mut r = self.ident.name.clone();
        r.append(".spec");
        r
    }
}

/// The supervised child process as the manager sees it.
#[derive(Clone, Copy, PartialEq, Eq, Structural, Debug)]
pub struct Supervisor {
    pub pid: Option<u32>,
    pub state: ProcessState,
    /// Seconds since the epoch at which `state` was entered.
    pub state_entered: u64,
}

impl Supervisor {
    /// Moves to `state` at time `now`. `state_entered` updates on every
    /// transition and never moves backwards under a monotone clock.
    pub fn change_state(&mut self, state: ProcessState, now: u64)
        requires
            now >= old(self).state_entered,
        ensures
            final(self).state == state,
            final(self).state_entered == now,
            final(self).state_entered >= old(self).state_entered,
            final(self).pid == old(self).pid,
    {
        self.state = state;
        self.state_entered = now;
    }
}

/// A running (or stopped) service under management.
pub struct Service {
    /// The identifier the spec asked for (possibly partial).
    pub spec_ident: PackageIdent,
    /// The concrete installed package currently run.
    pub pkg: PackageIdent,
    pub service_group: ServiceGroup,
    /// The gossip layer's key for this service's group.
    pub group_key: u64,
    pub topology: Topology,
    pub update_strategy: UpdateStrategy,
    pub start_style: StartStyle,
    /// Incarnation of this service's rumor; bumped on self-updates.
    pub incarnation: u64,
    /// Rendered configuration bytes last given to the child.
    pub cfg: Vec<u8>,
    /// The leader this service last observed for its group.
    pub leader: Option<u64>,
    /// Election tie-breaker score, when one is known.
    pub suitability: Option<u64>,
    pub supervisor: Supervisor,
}

impl Service {
    /// Projects the service back onto a spec whose desired state is `Up`.
    pub fn to_spec(&self) -> (r: ServiceSpec)
        ensures
            r.ident@ == self.spec_ident@,
            r.group@ == self.service_group.group@,
            r.topology == self.topology,
            r.update_strategy == self.update_strategy,
            r.desired_state == DesiredState::Up,
            r.start_style == self.start_style,
            r.binds@.len() == 0,
            r.config is None,
    {
        ServiceSpec {
            ident: self.spec_ident.clone_ident(),
            group: self.service_group.group.clone(),
            topology: self.topology,
            update_strategy: self.update_strategy,
            desired_state: DesiredState::Up,
            start_style: self.start_style,
            binds: Vec::new(),
            config: None,
        }
    }

    /// Stops the child: the process leaves, the state becomes `Down`.
    pub fn stop(&mut self, now: u64)
        requires
            now >= old(self).supervisor.state_entered,
        ensures
            final(self).supervisor.state == ProcessState::Down,
            final(self).supervisor.pid is None,
            final(self).supervisor.state_entered == now,
            final(self).supervisor.state_entered >= old(self).supervisor.state_entered,
            final(self).spec_ident == old(self).spec_ident,
            final(self).pkg == old(self).pkg,
            final(self).service_group == old(self).service_group,
            final(self).group_key == old(self).group_key,
            final(self).topology == old(self).topology,
            final(self).update_strategy == old(self).update_strategy,
            final(self).start_style == old(self).start_style,
            final(self).incarnation == old(self).incarnation,
            final(self).cfg == old(self).cfg,
            final(self).leader == old(self).leader,
            final(self).suitability == old(self).suitability,
    {
        self.supervisor.change_state(ProcessState::Down, now);
        self.supervisor.pid = None;
    }
}

impl Service {
    /// Re-renders this service's view of its group from the census: the
    /// service observes the leader the fold settled on.
    pub fn populate(&mut self, ring: &CensusRing)
        ensures
            final(self).leader == spec_group_leader(ring@.entries, old(self).group_key),
            final(self).spec_ident == old(self).spec_ident,
            final(self).pkg == old(self).pkg,
            final(self).service_group == old(self).service_group,
            final(self).group_key == old(self).group_key,
            final(self).topology == old(self).topology,
            final(self).update_strategy == old(self).update_strategy,
            final(self).start_style == old(self).start_style,
            final(self).incarnation == old(self).incarnation,
            final(self).cfg == old(self).cfg,
            final(self).suitability == old(self).suitability,
            final(self).supervisor == old(self).supervisor,
    {
        self.leader = ring.census_group_leader(self.group_key);
    }

    /// One step of the service state machine against a fresh census:
    /// when the census changed, the service re-renders its group view.
    /// Returns whether this service's rumor must be reinserted. The
    /// state-entry stamp never moves here: no state transition occurs.
    pub fn tick(&mut self, ring: &CensusRing) -> (r: bool)
        ensures
            r == ring@.changed,
            final(self).supervisor == old(self).supervisor,
            ring@.changed ==> final(self).leader == spec_group_leader(
                ring@.entries,
                old(self).group_key,
            ),
            !ring@.changed ==> *final(self) == *old(self),
            final(self).spec_ident == old(self).spec_ident,
            final(self).pkg == old(self).pkg,
            final(self).group_key == old(self).group_key,
            final(self).incarnation == old(self).incarnation,
            final(self).cfg == old(self).cfg,
            final(self).update_strategy == old(self).update_strategy,
            final(self).start_style == old(self).start_style,
            final(self).topology == old(self).topology,
            final(self).service_group == old(self).service_group,
            final(self).suitability == old(self).suitability,
    {
        if ring.changed {
            self.populate(ring);
        }
        ring.changed
    }
}

} // verus!
