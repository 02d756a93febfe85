//! The persisted service status: the JSON the supervisor writes to
//! `services.dat`, and the stateless query a status reader runs over it.
use vstd::prelude::*;
use vstd::string::*;
use vstd::utf8::encode_utf8;
use crate::errors::SupError;
use crate::ident::IdentView;
use crate::ident::PackageIdent;
use crate::ident::ident_satisfies;
use crate::ident::ident_text;
use crate::ident::ident_well_formed;
use crate::pidlock::push_decimal;
use crate::pidlock::spec_digits;
use crate::service::ProcessState;

verus! {

/// The persisted snapshot of one supervised child.
#[derive(Clone, Copy, PartialEq, Eq, Structural, Debug)]
pub struct SupervisorStatus {
    pub pid: Option<u32>,
    pub state: ProcessState,
    /// Seconds since the epoch at which `state` was entered.
    pub state_entered: u64,
}

/// One entry of `services.dat`.
pub struct ServiceStatus {
    pub package: PackageIdent,
    pub supervisor: SupervisorStatus,
}

/// The mathematical value of a `ServiceStatus`.
#[verifier::ext_equal]
pub struct ServiceStatusView {
    pub package: IdentView,
    pub supervisor: SupervisorStatus,
}

impl View for ServiceStatus {
    type V = ServiceStatusView;

    open spec fn view(&self) -> ServiceStatusView {
        ServiceStatusView { package: self.package@, supervisor: self.supervisor }
    }
}

/// A reader maps the persisted `state_entered` instant to an age:
/// seconds elapsed between it and the reader's clock.
pub fn elapsed_since(now: u64, state_entered: u64) -> (r: u64)
    requires
        now >= state_entered,
    ensures
        r == now - state_entered,
{
    now - state_entered
}

/// Appends the UTF-8 bytes of `s` to `out`.
fn append_str_bytes(out: &mut Vec<u8>, s: &str)
    ensures
        final(out)@ == old(out)@ + s.spec_bytes(),
{
    let mut b = s.as_bytes_vec();
    out.append(&mut b);
}

/// The JSON text for the process state.
pub open spec fn spec_state_bytes(s: ProcessState) -> Seq<u8> {
    match s {
        ProcessState::Down => "Down".spec_bytes(),
        ProcessState::Up => "Up".spec_bytes(),
        ProcessState::Restarting => "Restarting".spec_bytes(),
    }
}

/// The JSON object for the supervisor part of one status entry.
pub open spec fn spec_json_supervisor(s: SupervisorStatus) -> Seq<u8> {
    "{\"pid\":".spec_bytes() + (match s.pid {
        None => "null".spec_bytes(),
        Some(p) => spec_digits(p as nat),
    }) + ",\"state\":\"".spec_bytes() + spec_state_bytes(s.state)
        + "\",\"state_entered\":".spec_bytes() + spec_digits(s.state_entered as nat)
        + "}".spec_bytes()
}

/// The JSON object for one status entry.
pub open spec fn spec_json_status(v: ServiceStatusView) -> Seq<u8> {
    "{\"package\":\"".spec_bytes() + encode_utf8(ident_text(v.package))
        + "\",\"supervisor\":".spec_bytes() + spec_json_supervisor(v.supervisor)
        + "}".spec_bytes()
}

/// The comma-separated JSON objects for a list of entries.
pub open spec fn spec_json_list(l: Seq<ServiceStatusView>) -> Seq<u8>
    decreases l.len(),
{
    if l.len() == 0 {
        Seq::empty()
    } else if l.len() == 1 {
        spec_json_status(l[0])
    } else {
        spec_json_status(l[0]) + ",".spec_bytes() + spec_json_list(l.skip(1))
    }
}

/// The whole `services.dat` document: a JSON array of status entries.
pub open spec fn spec_json_statuses(l: Seq<ServiceStatusView>) -> Seq<u8> {
    "[".spec_bytes() + spec_json_list(l) + "]".spec_bytes()
}

/// Every package in the list is a well-formed identifier.
pub open spec fn statuses_well_formed(l: Seq<ServiceStatusView>) -> bool {
    forall|i: int| 0 <= i < l.len() ==> ident_well_formed(#[trigger] l[i].package)
}

#[verifier::rlimit(30)]
fn render_supervisor_json(out: &mut Vec<u8>, s: &SupervisorStatus)
    ensures
        final(out)@ == old(out)@ + spec_json_supervisor(*s),
{
    append_str_bytes(out, "{\"pid\":");
    match &s.pid {
        None => append_str_bytes(out, "null"),
        Some(p) => push_decimal(out, *p as u64),
    }
    append_str_bytes(out, ",\"state\":\"");
    match s.state {
        ProcessState::Down => append_str_bytes(out, "Down"),
        ProcessState::Up => append_str_bytes(out, "Up"),
        ProcessState::Restarting => append_str_bytes(out, "Restarting"),
    }
    append_str_bytes(out, "\",\"state_entered\":");
    push_decimal(out, s.state_entered);
    append_str_bytes(out, "}");
    assert(out@ =~= old(out)@ + spec_json_supervisor(*s));
}

#[verifier::rlimit(30)]
fn render_status(out: &mut Vec<u8>, s: &ServiceStatus)
    requires
        ident_well_formed(s@.package),
    ensures
        final(out)@ == old(out)@ + spec_json_status(s@),
{
    append_str_bytes(out, "{\"package\":\"");
    let text = s.package.to_text();
    append_str_bytes(out, text.as_str());
    append_str_bytes(out, "\",\"supervisor\":");
    render_supervisor_json(out, &s.supervisor);
    append_str_bytes(out, "}");
    assert(out@ =~= old(out)@ + spec_json_status(s@));
}

/// Renders the status list as the `services.dat` JSON document.
pub fn render_services_json(statuses: &Vec<ServiceStatus>) -> (r: Vec<u8>)
    requires
        statuses_well_formed(statuses@.map_values(|s: ServiceStatus| s@)),
    ensures
        r@ == spec_json_statuses(statuses@.map_values(|s: ServiceStatus| s@)),
{
    let ghost all = statuses@.map_values(|s: ServiceStatus| s@);
    let mut out: Vec<u8> = Vec::new();
    append_str_bytes(&mut out, "[");
    let mut i: usize = 0;
    while i < statuses.len()
        invariant
            i <= statuses@.len(),
            all == statuses@.map_values(|s: ServiceStatus| s@),
            statuses_well_formed(all),
            out@ + spec_json_list(all.skip(i as int)) == "[".spec_bytes() + spec_json_list(
                all.skip(0),
            ),
        decreases statuses@.len() - i,
    {
        proof {
            assert(all.skip(i as int)[0] == all[i as int]);
            assert(all.skip(i as int).skip(1) =~= all.skip(i as int + 1));
        }
        render_status(&mut out, &statuses[i]);
        if i + 1 < statuses.len() {
            append_str_bytes(&mut out, ",");
        }
        proof {
            assert(out@ + spec_json_list(all.skip(i as int + 1)) =~= "[".spec_bytes()
                + spec_json_list(all.skip(0)));
        }
        i = i + 1;
    }
    append_str_bytes(&mut out, "]");
    proof {
        assert(all.skip(i as int) =~= Seq::<ServiceStatusView>::empty());
        assert(all.skip(0) =~= all);
        assert(out@ =~= spec_json_statuses(all));
    }
    out
}

/// The first status whose package satisfies the query, if any.
pub open spec fn spec_find_status(l: Seq<ServiceStatusView>, q: IdentView) -> Option<
    ServiceStatusView,
>
    decreases l.len(),
{
    if l.len() == 0 {
        None
    } else if ident_satisfies(l[0].package, q) {
        Some(l[0])
    } else {
        spec_find_status(l.skip(1), q)
    }
}

fn find_status_from(statuses: &Vec<ServiceStatus>, ident: &PackageIdent, i: usize) -> (r: Option<
    usize,
>)
    requires
        i <= statuses@.len(),
    ensures
        match r {
            Some(j) => i <= j < statuses@.len() && spec_find_status(
                statuses@.map_values(|s: ServiceStatus| s@).skip(i as int),
                ident@,
            ) == Some(statuses@.map_values(|s: ServiceStatus| s@)[j as int]),
            None => spec_find_status(
                statuses@.map_values(|s: ServiceStatus| s@).skip(i as int),
                ident@,
            ) is None,
        },
    decreases statuses@.len() - i,
{
    let ghost all = statuses@.map_values(|s: ServiceStatus| s@);
    if i == statuses.len() {
        None
    } else {
        proof {
            assert(all.skip(i as int)[0] == all[i as int]);
            assert(all.skip(i as int).skip(1) =~= all.skip(i as int + 1));
        }
        if statuses[i].package.satisfies(ident) {
            Some(i)
        } else {
            find_status_from(statuses, ident, i + 1)
        }
    }
}

/// Answers a status query: the first persisted entry whose package
/// satisfies `ident`, or `ServiceNotLoaded` when none matches.
pub fn service_status(mut statuses: Vec<ServiceStatus>, ident: &PackageIdent) -> (r: Result<
    ServiceStatus,
    SupError,
>)
    ensures
        match spec_find_status(statuses@.map_values(|s: ServiceStatus| s@), ident@) {
            Some(v) => (r matches Ok(s) && s@ == v),
            None => (r matches Err(e) && e matches SupError::ServiceNotLoaded(q) && q@ == ident@),
        },
{
    proof {
        assert(statuses@.map_values(|s: ServiceStatus| s@).skip(0) =~= statuses@.map_values(
            |s: ServiceStatus| s@,
        ));
    }
    match find_status_from(&statuses, ident, 0) {
        Some(j) => Ok(statuses.remove(j)),
        None => Err(SupError::ServiceNotLoaded(ident.clone_ident())),
    }
}

} // verus!
