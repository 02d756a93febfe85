use sup_core::fsstate::StateDir;
use sup_core::fsstate::clean_dirty_state;
use sup_core::fsstate::create_state_path_dirs;
use sup_core::fsstate::load_member;
use sup_core::fsstate::persist_census_state;
use sup_core::fsstate::persist_services_state;
use sup_core::fsstate::read_services_dat;
use sup_core::service::ProcessState;
use sup_core::service::Supervisor;

#[test]
fn persist_leaves_no_tmp_behind() {
    let mut dir = StateDir::empty();
    create_state_path_dirs(&mut dir);
    persist_services_state(&mut dir, b"[]".to_vec());
    assert!(dir.services_tmp.is_none());
    assert_eq!(read_services_dat(&dir), Some(&b"[]".to_vec()));
    // a second write atomically replaces the first
    persist_services_state(&mut dir, b"[1]".to_vec());
    assert!(dir.services_tmp.is_none());
    assert_eq!(read_services_dat(&dir), Some(&b"[1]".to_vec()));
}

#[test]
fn clean_sweeps_tmp_and_health_but_not_snapshots() {
    let mut dir = StateDir::empty();
    create_state_path_dirs(&mut dir);
    persist_census_state(&mut dir, b"census".to_vec());
    dir.census_tmp = Some(b"torn".to_vec());
    dir.health_files.push(("redis".to_string(), b"ok".to_vec()));
    clean_dirty_state(&mut dir);
    assert!(dir.census_tmp.is_none());
    assert!(dir.health_files.is_empty());
    assert_eq!(dir.census_dat, Some(b"census".to_vec()));
}

#[test]
fn member_id_is_created_once_and_kept() {
    let mut dir = StateDir::empty();
    let first = load_member(&mut dir, b"FRESH-A".to_vec());
    assert_eq!(first, b"FRESH-A".to_vec());
    let second = load_member(&mut dir, b"FRESH-B".to_vec());
    assert_eq!(second, b"FRESH-A".to_vec());
    assert_eq!(dir.member_id, Some(b"FRESH-A".to_vec()));
}

#[test]
fn state_entered_updates_on_every_transition() {
    let mut sup = Supervisor { pid: Some(1), state: ProcessState::Down, state_entered: 10 };
    sup.change_state(ProcessState::Up, 20);
    assert_eq!(sup.state_entered, 20);
    sup.change_state(ProcessState::Restarting, 35);
    assert_eq!(sup.state_entered, 35);
    assert_eq!(sup.state, ProcessState::Restarting);
    // re-entering the same state at the same instant does not go backwards
    sup.change_state(ProcessState::Restarting, 35);
    assert_eq!(sup.state_entered, 35);
}

#[test]
fn error_tags_are_stable() {
    assert_eq!(sup_core::SupError::ProcessLockCorrupt.tag(), "process lock corrupt");
    assert_eq!(sup_core::SupError::BadDataPath.tag(), "bad data path");
}
