use sup_core::census::CensusRing;
use sup_core::census::ElectionRumor;
use sup_core::census::Member;
use sup_core::census::ServiceRumor;

fn rumor(group: u64, member: u64, incarnation: u64, pkg: &str, cfg: &[u8]) -> ServiceRumor {
    ServiceRumor {
        group,
        member,
        incarnation,
        pkg: pkg.to_string(),
        cfg: cfg.to_vec(),
    }
}

#[test]
fn fold_resolves_liveness_and_leadership() {
    let mut ring = CensusRing::new(1);
    let rumors = vec![rumor(9, 1, 1, "core/redis/3.2.4/123", b"a"), rumor(9, 2, 4, "core/redis/3.2.4/123", b"b")];
    let elections = vec![ElectionRumor { group: 9, leader: 2, finished: true }];
    let updates = vec![];
    let members = vec![Member { id: 1, alive: true }, Member { id: 2, alive: false }];
    ring.update_from_rumors(0, &rumors, &elections, &updates, &members);

    assert!(ring.changed);
    assert_eq!(ring.entries.len(), 2);
    assert!(ring.entries[0].alive);
    assert!(!ring.entries[1].alive);
    assert!(!ring.entries[0].leader);
    assert!(ring.entries[1].leader);
    assert_eq!(ring.census_group_leader(9), Some(2));
    let me = ring.me(9).expect("own entry");
    assert_eq!(me.member_id, 1);
    assert_eq!(me.incarnation, 1);
}

#[test]
fn unfinished_election_names_no_leader() {
    let mut ring = CensusRing::new(1);
    let rumors = vec![rumor(9, 1, 1, "core/pg/9.6/1", b"")];
    let elections = vec![ElectionRumor { group: 9, leader: 1, finished: false }];
    ring.update_from_rumors(0, &rumors, &elections, &vec![], &vec![Member { id: 1, alive: true }]);
    assert_eq!(ring.census_group_leader(9), None);
}

#[test]
fn identical_inputs_twice_leave_changed_false() {
    let mut ring = CensusRing::new(1);
    let rumors = vec![rumor(9, 1, 1, "core/redis/3.2.4/123", b"cfg")];
    let elections = vec![ElectionRumor { group: 9, leader: 1, finished: true }];
    let updates = vec![ElectionRumor { group: 9, leader: 1, finished: true }];
    let members = vec![Member { id: 1, alive: true }];

    ring.update_from_rumors(0, &rumors, &elections, &updates, &members);
    assert!(ring.changed);
    ring.update_from_rumors(0, &rumors, &elections, &updates, &members);
    assert!(!ring.changed);
}

#[test]
fn service_observes_the_elected_leader_via_populate() {
    let mut ring = CensusRing::new(1);
    let rumors = vec![rumor(9, 1, 1, "core/pg/9.6/1", b""), rumor(9, 2, 1, "core/pg/9.6/1", b"")];
    let elections = vec![ElectionRumor { group: 9, leader: 2, finished: true }];
    let members = vec![Member { id: 1, alive: true }, Member { id: 2, alive: true }];
    ring.update_from_rumors(0, &rumors, &elections, &vec![], &members);
    assert!(ring.changed);

    let mut svc = sup_core::service::Service {
        spec_ident: sup_core::PackageIdent {
            origin: "core".to_string(),
            name: "pg".to_string(),
            version: None,
            release: None,
        },
        pkg: sup_core::PackageIdent {
            origin: "core".to_string(),
            name: "pg".to_string(),
            version: Some("9.6".to_string()),
            release: Some("1".to_string()),
        },
        service_group: sup_core::ServiceGroup {
            service: "pg".to_string(),
            group: "default".to_string(),
            organization: None,
        },
        group_key: 9,
        topology: sup_core::service::Topology::Leader,
        update_strategy: sup_core::service::UpdateStrategy::NoUpdate,
        start_style: sup_core::service::StartStyle::Persistent,
        incarnation: 1,
        cfg: vec![],
        leader: None,
        suitability: None,
        supervisor: sup_core::service::Supervisor {
            pid: Some(5),
            state: sup_core::service::ProcessState::Up,
            state_entered: 50,
        },
    };
    let bumped = svc.tick(&ring);
    assert!(bumped);
    assert_eq!(svc.leader, Some(2));
    assert_eq!(svc.supervisor.state_entered, 50);
}

#[test]
fn changed_rumor_cfg_marks_the_ring_changed() {
    let mut ring = CensusRing::new(1);
    let members = vec![Member { id: 1, alive: true }];
    ring.update_from_rumors(0, &vec![rumor(9, 1, 1, "p", b"one")], &vec![], &vec![], &members);
    ring.update_from_rumors(0, &vec![rumor(9, 1, 1, "p", b"two")], &vec![], &vec![], &members);
    assert!(ring.changed);
}

#[test]
fn liveness_flip_marks_the_ring_changed() {
    let mut ring = CensusRing::new(1);
    let rumors = vec![rumor(9, 1, 1, "p", b"")];
    ring.update_from_rumors(0, &rumors, &vec![], &vec![], &vec![Member { id: 1, alive: true }]);
    ring.update_from_rumors(0, &rumors, &vec![], &vec![], &vec![Member { id: 1, alive: false }]);
    assert!(ring.changed);
    ring.update_from_rumors(0, &rumors, &vec![], &vec![], &vec![Member { id: 1, alive: false }]);
    assert!(!ring.changed);
}
