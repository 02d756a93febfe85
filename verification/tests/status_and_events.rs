use sup_core::PackageIdent;
use sup_core::SupError;
use sup_core::events::EventType;
use sup_core::events::build_event_envelope;
use sup_core::events::frame_event_payload;
use sup_core::service::ProcessState;
use sup_core::status::ServiceStatus;
use sup_core::status::SupervisorStatus;
use sup_core::status::elapsed_since;
use sup_core::status::render_services_json;
use sup_core::status::service_status;

fn ident(origin: &str, name: &str, version: Option<&str>, release: Option<&str>) -> PackageIdent {
    PackageIdent {
        origin: origin.to_string(),
        name: name.to_string(),
        version: version.map(|v| v.to_string()),
        release: release.map(|r| r.to_string()),
    }
}

fn status(name: &str, version: &str, pid: Option<u32>, state: ProcessState) -> ServiceStatus {
    ServiceStatus {
        package: ident("core", name, Some(version), Some("20170101000000")),
        supervisor: SupervisorStatus { pid, state, state_entered: 1490000000 },
    }
}

#[test]
fn satisfies_matches_partial_idents() {
    let full = ident("core", "redis", Some("3.2.4"), Some("20170101000000"));
    assert!(full.satisfies(&ident("core", "redis", None, None)));
    assert!(full.satisfies(&ident("core", "redis", Some("3.2.4"), None)));
    assert!(!full.satisfies(&ident("core", "redis", Some("3.2.5"), None)));
    assert!(!full.satisfies(&ident("acme", "redis", None, None)));
    // a partial ident does not satisfy a more specific query
    let partial = ident("core", "redis", None, None);
    assert!(!partial.satisfies(&ident("core", "redis", Some("3.2.4"), None)));
}

#[test]
fn ident_renders_with_only_present_parts() {
    assert_eq!(ident("core", "redis", None, None).to_text(), "core/redis");
    assert_eq!(ident("core", "redis", Some("3.2.4"), None).to_text(), "core/redis/3.2.4");
    assert_eq!(
        ident("core", "redis", Some("3.2.4"), Some("20170101000000")).to_text(),
        "core/redis/3.2.4/20170101000000"
    );
}

#[test]
fn service_status_first_match_wins() {
    let statuses = vec![
        status("redis", "3.2.4", Some(1), ProcessState::Up),
        status("redis", "3.2.5", Some(2), ProcessState::Down),
    ];
    let found = service_status(statuses, &ident("core", "redis", None, None)).unwrap();
    assert_eq!(found.package.version, Some("3.2.4".to_string()));
    assert_eq!(found.supervisor.pid, Some(1));
}

#[test]
fn service_status_miss_is_service_not_loaded() {
    let statuses = vec![status("redis", "3.2.4", Some(1), ProcessState::Up)];
    let r = service_status(statuses, &ident("core", "postgres", None, None));
    match r {
        Err(SupError::ServiceNotLoaded(q)) => assert_eq!(q.name, "postgres"),
        _ => panic!("expected ServiceNotLoaded"),
    }
}

#[test]
fn services_json_renders_the_documented_shape() {
    let statuses = vec![status("redis", "3.2.4", Some(909), ProcessState::Up)];
    let js = String::from_utf8(render_services_json(&statuses)).unwrap();
    assert_eq!(
        js,
        "[{\"package\":\"core/redis/3.2.4/20170101000000\",\"supervisor\":{\"pid\":909,\"state\":\"Up\",\"state_entered\":1490000000}}]"
    );
}

#[test]
fn services_json_null_pid_and_commas() {
    let statuses = vec![
        status("redis", "3.2.4", None, ProcessState::Down),
        status("pg", "9.6.1", Some(4), ProcessState::Restarting),
    ];
    let js = String::from_utf8(render_services_json(&statuses)).unwrap();
    assert_eq!(
        js,
        "[{\"package\":\"core/redis/3.2.4/20170101000000\",\"supervisor\":{\"pid\":null,\"state\":\"Down\",\"state_entered\":1490000000}},{\"package\":\"core/pg/9.6.1/20170101000000\",\"supervisor\":{\"pid\":4,\"state\":\"Restarting\",\"state_entered\":1490000000}}]"
    );
}

#[test]
fn empty_services_render_as_empty_array() {
    assert_eq!(render_services_json(&vec![]), b"[]".to_vec());
}

#[test]
fn elapsed_maps_state_entered_to_an_age() {
    assert_eq!(elapsed_since(1490000060, 1490000000), 60);
    assert_eq!(elapsed_since(5, 5), 0);
}

#[test]
fn framing_prefixes_each_entry_with_its_length() {
    let entries = vec![b"abc".to_vec(), b"".to_vec(), b"xy".to_vec()];
    let payload = frame_event_payload(&entries);
    let mut expected: Vec<u8> = vec![];
    expected.extend_from_slice(&[3, 0, 0, 0, 0, 0, 0, 0]);
    expected.extend_from_slice(b"abc");
    expected.extend_from_slice(&[0, 0, 0, 0, 0, 0, 0, 0]);
    expected.extend_from_slice(&[2, 0, 0, 0, 0, 0, 0, 0]);
    expected.extend_from_slice(b"xy");
    assert_eq!(payload, expected);
}

#[test]
fn framing_length_is_little_endian() {
    let entries = vec![vec![7u8; 300]];
    let payload = frame_event_payload(&entries);
    // 300 = 0x012c, least significant byte first
    assert_eq!(&payload[0..8], &[0x2c, 0x01, 0, 0, 0, 0, 0, 0]);
    assert_eq!(payload.len(), 308);
}

#[test]
fn envelope_is_attributed_to_the_supervisor() {
    let entries = vec![b"e1".to_vec()];
    let ee = build_event_envelope("member-77".to_string(), &entries);
    assert_eq!(ee.envelope_type, EventType::ProtoBuf);
    assert_eq!(ee.member_id, "member-77");
    assert_eq!(ee.service, "habitat-sup");
    assert_eq!(&ee.payload[8..10], b"e1");
}
