use sup_core::SupError;
use sup_core::fsstate::StateDir;
use sup_core::manager::Manager;
use sup_core::pidlock::obtain_process_lock;
use sup_core::pidlock::parse_pid;
use sup_core::pidlock::read_process_lock;
use sup_core::pidlock::release_process_lock;
use sup_core::pidlock::render_lock_content;
use sup_core::pidlock::write_process_lock;

#[test]
fn lock_content_is_decimal_pid_newline() {
    assert_eq!(render_lock_content(0), b"0\n".to_vec());
    assert_eq!(render_lock_content(4242), b"4242\n".to_vec());
    assert_eq!(render_lock_content(u32::MAX), b"4294967295\n".to_vec());
}

#[test]
fn holding_the_lock_reads_back_the_pid() {
    let mut dir = StateDir::empty();
    write_process_lock(&mut dir, 1234).unwrap();
    assert!(matches!(read_process_lock(&dir), Ok(1234)));
}

#[test]
fn releasing_the_lock_makes_reads_fail_with_io() {
    let mut dir = StateDir::empty();
    write_process_lock(&mut dir, 1234).unwrap();
    release_process_lock(&mut dir);
    assert!(matches!(
        read_process_lock(&dir),
        Err(SupError::ProcessLockIO)
    ));
}

#[test]
fn double_write_fails_without_clobbering() {
    let mut dir = StateDir::empty();
    write_process_lock(&mut dir, 7).unwrap();
    assert!(matches!(
        write_process_lock(&mut dir, 8),
        Err(SupError::ProcessLockIO)
    ));
    assert!(matches!(read_process_lock(&dir), Ok(7)));
}

#[test]
fn parse_rejects_garbage_and_overflow() {
    assert!(matches!(
        parse_pid(&b"".to_vec()),
        Err(SupError::ProcessLockCorrupt)
    ));
    assert!(matches!(
        parse_pid(&b"abc\n".to_vec()),
        Err(SupError::ProcessLockCorrupt)
    ));
    assert!(matches!(
        parse_pid(&b"12x4\n".to_vec()),
        Err(SupError::ProcessLockCorrupt)
    ));
    // one past u32::MAX
    assert!(matches!(
        parse_pid(&b"4294967296\n".to_vec()),
        Err(SupError::ProcessLockCorrupt)
    ));
    assert!(matches!(parse_pid(&b"4294967295\n".to_vec()), Ok(4294967295)));
}

#[test]
fn parse_reads_only_the_first_line() {
    assert!(matches!(parse_pid(&b"17\n2345\n".to_vec()), Ok(17)));
    assert!(matches!(parse_pid(&b"17".to_vec()), Ok(17)));
}

#[test]
fn lock_contention_against_live_holder() {
    let mut dir = StateDir::empty();
    let live = vec![100, 200];
    obtain_process_lock(&mut dir, 100, &live).unwrap();
    // a second instance with a live holder fails and changes nothing
    let r = obtain_process_lock(&mut dir, 300, &live);
    assert!(matches!(r, Err(SupError::ProcessLocked(100))));
    assert!(matches!(read_process_lock(&dir), Ok(100)));
}

#[test]
fn stale_lock_is_replaced() {
    let mut dir = StateDir::empty();
    obtain_process_lock(&mut dir, 100, &vec![100]).unwrap();
    // the holder died: pid 100 no longer alive
    obtain_process_lock(&mut dir, 300, &vec![300]).unwrap();
    assert!(matches!(read_process_lock(&dir), Ok(300)));
}

#[test]
fn corrupt_lock_is_replaced() {
    let mut dir = StateDir::empty();
    dir.lock = Some(b"not a pid\n".to_vec());
    obtain_process_lock(&mut dir, 300, &vec![300]).unwrap();
    assert!(matches!(read_process_lock(&dir), Ok(300)));
}

#[test]
fn is_running_reports_liveness_of_holder() {
    let mut dir = StateDir::empty();
    assert_eq!(Manager::is_running(&dir, &vec![1]).unwrap(), false);
    write_process_lock(&mut dir, 55).unwrap();
    assert_eq!(Manager::is_running(&dir, &vec![55]).unwrap(), true);
    assert_eq!(Manager::is_running(&dir, &vec![56]).unwrap(), false);
    dir.lock = Some(b"junk\n".to_vec());
    assert_eq!(Manager::is_running(&dir, &vec![55]).unwrap(), false);
}
