use sup_core::PackageIdent;
use sup_core::ServiceGroup;
use sup_core::fsstate::StateDir;
use sup_core::manager::GossipState;
use sup_core::manager::Manager;
use sup_core::manager::SignalEvent;
use sup_core::manager::SpecWatcherEvent;
use sup_core::manager::check_for_updated_package;
use sup_core::manager::suitability_lookup;
use sup_core::paths::FsCfg;
use sup_core::paths::ManagerConfig;
use sup_core::service::DesiredState;
use sup_core::service::ProcessState;
use sup_core::service::Service;
use sup_core::service::ServiceSpec;
use sup_core::service::StartStyle;
use sup_core::service::Supervisor;
use sup_core::service::Topology;
use sup_core::service::UpdateStrategy;

fn ident(origin: &str, name: &str, version: Option<&str>, release: Option<&str>) -> PackageIdent {
    PackageIdent {
        origin: origin.to_string(),
        name: name.to_string(),
        version: version.map(|v| v.to_string()),
        release: release.map(|r| r.to_string()),
    }
}

fn service(name: &str, group_key: u64, topology: Topology, style: StartStyle) -> Service {
    Service {
        spec_ident: ident("core", name, None, None),
        pkg: ident("core", name, Some("1.0.0"), Some("20170101000000")),
        service_group: ServiceGroup {
            service: name.to_string(),
            group: "default".to_string(),
            organization: None,
        },
        group_key,
        topology,
        update_strategy: UpdateStrategy::AtOnce,
        start_style: style,
        incarnation: 1,
        cfg: b"cfg".to_vec(),
        leader: None,
        suitability: Some(3),
        supervisor: Supervisor { pid: Some(42), state: ProcessState::Up, state_entered: 100 },
    }
}

fn spec_for(name: &str, desired: DesiredState) -> ServiceSpec {
    ServiceSpec {
        ident: ident("core", name, None, None),
        group: "default".to_string(),
        topology: Topology::Standalone,
        update_strategy: UpdateStrategy::AtOnce,
        desired_state: desired,
        start_style: StartStyle::Transient,
        binds: vec![],
        config: None,
    }
}

fn new_manager() -> Manager {
    Manager::new(ManagerConfig::default(), 1, FsCfg::new("/hab/sup/default"))
}

#[test]
fn add_service_inserts_rumor_and_starts_election() {
    let mut m = new_manager();
    m.add_service(service("pg", 9, Topology::Leader, StartStyle::Persistent));
    assert_eq!(m.services.len(), 1);
    assert_eq!(m.gossip.service_store.len(), 1);
    let r = &m.gossip.service_store[0];
    assert_eq!(r.group, 9);
    assert_eq!(r.member, 1);
    assert_eq!(r.incarnation, 1);
    assert_eq!(r.pkg, "core/pg/1.0.0/20170101000000");
    assert_eq!(m.gossip.elections_started, vec![9]);
}

#[test]
fn standalone_service_starts_no_election() {
    let mut m = new_manager();
    m.add_service(service("redis", 7, Topology::Standalone, StartStyle::Persistent));
    assert!(m.gossip.elections_started.is_empty());
}

#[test]
fn removal_event_stops_and_unmanages_the_service() {
    let mut m = new_manager();
    m.add_service(service("redis", 7, Topology::Standalone, StartStyle::Transient));
    let events = vec![SpecWatcherEvent::RemoveService(spec_for("redis", DesiredState::Down))];
    let (to_load, unlink) = m.update_running_services_from_watcher(events, 200);
    assert!(to_load.is_empty());
    assert_eq!(unlink, vec!["redis.spec".to_string()]);
    assert!(m.services.is_empty());
}

#[test]
fn add_events_with_desired_up_are_returned_to_load() {
    let mut m = new_manager();
    let events = vec![
        SpecWatcherEvent::AddService(spec_for("redis", DesiredState::Up)),
        SpecWatcherEvent::AddService(spec_for("pg", DesiredState::Down)),
        SpecWatcherEvent::RemoveService(spec_for("mysql", DesiredState::Down)),
    ];
    let (to_load, unlink) = m.update_running_services_from_watcher(events, 200);
    assert_eq!(to_load.len(), 1);
    assert_eq!(to_load[0].ident.name, "redis");
    assert!(unlink.is_empty());
}

#[test]
fn initial_events_filter_mirrors_desired_state() {
    let events = vec![
        SpecWatcherEvent::AddService(spec_for("a", DesiredState::Up)),
        SpecWatcherEvent::AddService(spec_for("b", DesiredState::Down)),
        SpecWatcherEvent::AddService(spec_for("c", DesiredState::Up)),
    ];
    let specs = Manager::start_initial_services_from_watcher(events);
    let names: Vec<String> = specs.iter().map(|s| s.ident.name.clone()).collect();
    assert_eq!(names, vec!["a".to_string(), "c".to_string()]);
}

#[test]
fn shutdown_signal_downs_every_service() {
    let mut m = new_manager();
    m.add_service(service("redis", 7, Topology::Standalone, StartStyle::Persistent));
    m.add_service(service("pg", 9, Topology::Leader, StartStyle::Persistent));
    let r = m.check_for_incoming_signals(Some(SignalEvent::Shutdown), 500);
    assert!(r);
    for s in &m.services {
        assert_eq!(s.supervisor.state, ProcessState::Down);
        assert_eq!(s.supervisor.pid, None);
        assert_eq!(s.supervisor.state_entered, 500);
    }
}

#[test]
fn passthrough_signal_changes_nothing() {
    let mut m = new_manager();
    m.add_service(service("redis", 7, Topology::Standalone, StartStyle::Persistent));
    let r = m.check_for_incoming_signals(Some(SignalEvent::Passthrough(10)), 500);
    assert!(!r);
    assert_eq!(m.services[0].supervisor.state, ProcessState::Up);
    assert_eq!(m.services[0].supervisor.state_entered, 100);
}

#[test]
fn at_once_update_bumps_incarnation_and_reinserts() {
    let mut m = new_manager();
    m.add_service(service("redis", 7, Topology::Standalone, StartStyle::Persistent));
    let newer = ident("core", "redis", Some("1.1.0"), Some("20170202000000"));
    let candidates = vec![(ident("core", "redis", None, None), newer)];
    let n = m.check_for_updated_packages(&candidates);
    assert_eq!(n, 1);
    assert_eq!(m.services[0].pkg.version, Some("1.1.0".to_string()));
    assert_eq!(m.services[0].incarnation, 2);
    let r = &m.gossip.service_store[0];
    assert_eq!(r.incarnation, 2);
    assert_eq!(r.pkg, "core/redis/1.1.0/20170202000000");
}

#[test]
fn rolling_update_waits_for_update_leadership() {
    let mut svc = service("redis", 7, Topology::Standalone, StartStyle::Persistent);
    svc.update_strategy = UpdateStrategy::Rolling;
    let newer = ident("core", "redis", Some("1.1.0"), Some("20170202000000"));
    let mut gossip = GossipState::new(1);
    // census has no update leader for the group: no swap
    let ring = sup_core::census::CensusRing::new(1);
    let swapped = check_for_updated_package(&mut gossip, &mut svc, &ring, Some(newer));
    assert!(!swapped);
    assert_eq!(svc.incarnation, 1);
}

#[test]
fn state_entered_is_stable_without_a_transition() {
    let mut m = new_manager();
    m.add_service(service("redis", 7, Topology::Standalone, StartStyle::Persistent));
    let before = m.services[0].supervisor.state_entered;
    let candidates = vec![];
    m.check_for_updated_packages(&candidates);
    let dirty = m.check_for_changed_services();
    assert!(dirty); // first observation of the stamps
    assert_eq!(m.services[0].supervisor.state_entered, before);
    assert!(!m.check_for_changed_services()); // stable since
}

#[test]
fn suitability_comes_from_the_group_member() {
    let services = vec![service("redis", 7, Topology::Standalone, StartStyle::Persistent)];
    assert_eq!(suitability_lookup(&services, 7), 3);
    assert_eq!(suitability_lookup(&services, 8), 0);
}

#[test]
fn boot_with_no_specs_persists_empty_services() {
    let mut dir = StateDir::empty();
    let cfg = ManagerConfig::default();
    let fs = FsCfg::new("/hab/sup/default");
    let mut m =
        Manager::load(cfg, fs, &mut dir, b"MEMBER-1".to_vec(), 1, 77, &vec![77]).unwrap();
    assert!(dir.data_dir && dir.specs_dir);
    assert_eq!(dir.member_id, Some(b"MEMBER-1".to_vec()));
    assert_eq!(dir.lock, Some(b"77\n".to_vec()));

    // boot writes the initial snapshots before the loop starts
    m.persist_state(&mut dir, b"census".to_vec(), b"butterfly".to_vec());
    assert_eq!(dir.services_dat, Some(b"[]".to_vec()));
    assert_eq!(dir.census_dat, Some(b"census".to_vec()));
    assert!(dir.census_tmp.is_none() && dir.services_tmp.is_none() && dir.butterfly_tmp.is_none());

    // a quiet tick persists nothing new
    let out = m.run_tick(
        &mut dir,
        None,
        vec![],
        &vec![],
        b"c2".to_vec(),
        b"b2".to_vec(),
        0,
        1000,
    );
    assert!(!out.shutdown);
    assert_eq!(dir.census_dat, Some(b"census".to_vec()));
}

#[test]
fn second_instance_fails_with_process_locked() {
    let mut dir = StateDir::empty();
    let fs = FsCfg::new("/hab/sup/default");
    Manager::load(
        ManagerConfig::default(),
        fs,
        &mut dir,
        b"MEMBER-1".to_vec(),
        1,
        77,
        &vec![77],
    )
    .unwrap();
    let fs2 = FsCfg::new("/hab/sup/default");
    let r = Manager::load(
        ManagerConfig::default(),
        fs2,
        &mut dir,
        b"MEMBER-2".to_vec(),
        2,
        78,
        &vec![77, 78],
    );
    assert!(matches!(r, Err(sup_core::SupError::ProcessLocked(77))));
    assert_eq!(dir.lock, Some(b"77\n".to_vec()));
}

#[test]
fn tick_folds_census_and_persists_when_dirty() {
    let mut dir = StateDir::empty();
    let fs = FsCfg::new("/hab/sup/default");
    let mut m = Manager::load(
        ManagerConfig::default(),
        fs,
        &mut dir,
        b"M".to_vec(),
        1,
        9,
        &vec![9],
    )
    .unwrap();
    m.add_service(service("redis", 7, Topology::Standalone, StartStyle::Persistent));
    m.gossip.member_list.push(sup_core::census::Member { id: 1, alive: true });
    let out = m.run_tick(
        &mut dir,
        None,
        vec![],
        &vec![],
        b"c1".to_vec(),
        b"b1".to_vec(),
        0,
        1000,
    );
    assert!(!out.shutdown);
    assert!(out.emit_event); // the census changed on the first fold
    assert_eq!(out.rumor_offset, 1); // one service saw the change
    assert_eq!(m.census_ring.entries.len(), 1);
    assert!(m.census_ring.entries[0].alive);
    let js = String::from_utf8(dir.services_dat.clone().unwrap()).unwrap();
    assert!(js.contains("core/redis/1.0.0/20170101000000"));

    // nothing moved: the next tick folds the same census and persists nothing new
    dir.census_dat = None;
    let out2 = m.run_tick(
        &mut dir,
        None,
        vec![],
        &vec![],
        b"c2".to_vec(),
        b"b2".to_vec(),
        0,
        2000,
    );
    assert!(!out2.emit_event);
    assert_eq!(out2.rumor_offset, 0);
    assert_eq!(dir.census_dat, None); // no persist happened
}

#[test]
fn shutdown_drains_services_and_releases_lock() {
    let mut dir = StateDir::empty();
    let fs = FsCfg::new("/hab/sup/default");
    let mut m = Manager::load(
        ManagerConfig::default(),
        fs,
        &mut dir,
        b"M".to_vec(),
        1,
        9,
        &vec![9],
    )
    .unwrap();
    m.add_service(service("redis", 7, Topology::Standalone, StartStyle::Transient));
    let unlink = m.shutdown(&mut dir, 2000);
    assert!(m.services.is_empty());
    assert_eq!(unlink, vec!["redis.spec".to_string()]);
    assert!(dir.lock.is_none());
}

#[test]
fn rumor_store_keeps_key_order() {
    let mut g = GossipState::new(1);
    let mk = |group: u64, member: u64, inc: u64| sup_core::census::ServiceRumor {
        group,
        member,
        incarnation: inc,
        pkg: String::from("p"),
        cfg: vec![],
    };
    g.insert_service(mk(9, 2, 1));
    g.insert_service(mk(7, 1, 1));
    g.insert_service(mk(9, 1, 1));
    let keys: Vec<(u64, u64)> = g.service_store.iter().map(|r| (r.group, r.member)).collect();
    assert_eq!(keys, vec![(7, 1), (9, 1), (9, 2)]);
    // replacing a rumor keeps its position and takes the new incarnation
    g.insert_service(mk(9, 1, 5));
    let keys2: Vec<(u64, u64)> = g.service_store.iter().map(|r| (r.group, r.member)).collect();
    assert_eq!(keys2, keys);
    assert_eq!(g.service_store[1].incarnation, 5);
}

#[test]
fn event_entries_are_the_services_own_census_entries() {
    let mut m = new_manager();
    m.add_service(service("redis", 7, Topology::Standalone, StartStyle::Persistent));
    m.add_service(service("pg", 9, Topology::Leader, StartStyle::Persistent));
    // rumors exist for groups 7 and 9 from member 1; group 9 also has a peer
    m.gossip.service_store.push(sup_core::census::ServiceRumor {
        group: 9,
        member: 2,
        incarnation: 1,
        pkg: "peer".to_string(),
        cfg: vec![],
    });
    m.gossip.member_list.push(sup_core::census::Member { id: 1, alive: true });
    m.census_ring.update_from_rumors(
        0,
        &m.gossip.service_store,
        &m.gossip.election_store,
        &m.gossip.update_store,
        &m.gossip.member_list,
    );
    let entries = m.event_entries();
    assert_eq!(entries.len(), 2);
    assert!(entries.iter().all(|e| e.member_id == 1));
    assert_eq!(entries[0].group, 7);
    assert_eq!(entries[1].group, 9);
}

#[test]
fn tick_returns_the_spec_files_removals_leave() {
    let mut dir = StateDir::empty();
    let fs = FsCfg::new("/hab/sup/default");
    let mut m = Manager::load(
        ManagerConfig::default(),
        fs,
        &mut dir,
        b"M".to_vec(),
        1,
        9,
        &vec![9],
    )
    .unwrap();
    m.add_service(service("redis", 7, Topology::Standalone, StartStyle::Transient));
    m.add_service(service("pg", 9, Topology::Leader, StartStyle::Persistent));
    let events = vec![
        SpecWatcherEvent::RemoveService(spec_for("redis", DesiredState::Down)),
        SpecWatcherEvent::RemoveService(spec_for("pg", DesiredState::Down)),
    ];
    let out = m.run_tick(&mut dir, None, events, &vec![], b"c".to_vec(), b"b".to_vec(), 0, 1000);
    assert!(!out.shutdown);
    // only the transient service leaves a spec file to unlink
    assert_eq!(out.spec_files_to_unlink, vec!["redis.spec".to_string()]);
    assert!(m.services.is_empty());
}

#[test]
fn every_tick_asks_for_election_maintenance() {
    let mut dir = StateDir::empty();
    let fs = FsCfg::new("/hab/sup/default");
    let mut m = Manager::load(
        ManagerConfig::default(),
        fs,
        &mut dir,
        b"M".to_vec(),
        1,
        9,
        &vec![9],
    )
    .unwrap();
    assert_eq!(m.gossip.elections_restarted, 0);
    m.run_tick(&mut dir, None, vec![], &vec![], b"c".to_vec(), b"b".to_vec(), 0, 1000);
    assert_eq!(m.gossip.elections_restarted, 1);
    m.run_tick(&mut dir, None, vec![], &vec![], b"c".to_vec(), b"b".to_vec(), 0, 2000);
    assert_eq!(m.gossip.elections_restarted, 2);
}

#[test]
fn shutdown_lists_only_transient_spec_files_in_order() {
    let mut dir = StateDir::empty();
    let fs = FsCfg::new("/hab/sup/default");
    let mut m = Manager::load(
        ManagerConfig::default(),
        fs,
        &mut dir,
        b"M".to_vec(),
        1,
        9,
        &vec![9],
    )
    .unwrap();
    m.add_service(service("a", 1, Topology::Standalone, StartStyle::Transient));
    m.add_service(service("b", 2, Topology::Standalone, StartStyle::Persistent));
    m.add_service(service("c", 3, Topology::Standalone, StartStyle::Transient));
    let unlink = m.shutdown(&mut dir, 2000);
    assert_eq!(unlink, vec!["a.spec".to_string(), "c.spec".to_string()]);
}

#[test]
fn losing_contender_modifies_no_state_file() {
    let mut dir = StateDir::empty();
    let fs = FsCfg::new("/hab/sup/default");
    Manager::load(
        ManagerConfig::default(),
        fs,
        &mut dir,
        b"MEMBER-1".to_vec(),
        1,
        77,
        &vec![77],
    )
    .unwrap();
    // leave stale droppings a boot would normally sweep
    dir.census_tmp = Some(b"torn".to_vec());
    dir.health_files.push(("redis".to_string(), b"ok".to_vec()));
    let fs2 = FsCfg::new("/hab/sup/default");
    let r = Manager::load(
        ManagerConfig::default(),
        fs2,
        &mut dir,
        b"MEMBER-2".to_vec(),
        2,
        78,
        &vec![77, 78],
    );
    assert!(matches!(r, Err(sup_core::SupError::ProcessLocked(77))));
    // the loser touched nothing: member id, lock, and even the stale
    // droppings are exactly as it found them
    assert_eq!(dir.member_id, Some(b"MEMBER-1".to_vec()));
    assert_eq!(dir.lock, Some(b"77\n".to_vec()));
    assert_eq!(dir.census_tmp, Some(b"torn".to_vec()));
    assert_eq!(dir.health_files.len(), 1);
}
