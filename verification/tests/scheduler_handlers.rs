use sup_core::scheduler::ErrCode;
use sup_core::scheduler::Group;
use sup_core::scheduler::GroupCreateDecision;
use sup_core::scheduler::GroupState;
use sup_core::scheduler::PackageStats;
use sup_core::scheduler::SchedPackage;
use sup_core::scheduler::StoreError;
use sup_core::scheduler::group_create;
use sup_core::scheduler::group_get;
use sup_core::scheduler::package_create;
use sup_core::scheduler::package_stats_get;

#[test]
fn group_create_unknown_project_is_not_found() {
    let r = group_create(&"core".to_string(), &"nope".to_string(), false, None, None);
    match r {
        GroupCreateDecision::NotFound(e) => {
            assert_eq!(e.code, ErrCode::EntityNotFound);
            assert_eq!(e.msg, "sc:group-create:1");
        }
        _ => panic!("expected NotFound"),
    }
}

#[test]
fn group_create_with_no_projects_is_complete_at_once() {
    // dependents only, and the graph reports none
    let r = group_create(
        &"core".to_string(),
        &"redis".to_string(),
        true,
        Some("core/redis/3.2.4/20170101000000".to_string()),
        None,
    );
    match r {
        GroupCreateDecision::CompleteEmpty(g) => {
            assert_eq!(g.id, 0);
            assert_eq!(g.state, GroupState::Complete);
            assert!(g.projects.is_empty());
        }
        _ => panic!("expected CompleteEmpty"),
    }
}

#[test]
fn group_create_schedules_root_and_reverse_dependencies() {
    let rdeps = vec![
        ("core/a".to_string(), "core/a/1/1".to_string()),
        ("core/b".to_string(), "core/b/1/1".to_string()),
    ];
    let r = group_create(
        &"core".to_string(),
        &"redis".to_string(),
        false,
        Some("core/redis/3.2.4/20170101000000".to_string()),
        Some(rdeps),
    );
    match r {
        GroupCreateDecision::Create(ps) => {
            let names: Vec<&str> = ps.iter().map(|p| p.name.as_str()).collect();
            assert_eq!(names, vec!["core/redis", "core/a", "core/b"]);
            assert_eq!(ps[0].ident, "core/redis/3.2.4/20170101000000");
        }
        _ => panic!("expected Create"),
    }
}

#[test]
fn group_get_misses_and_store_errors_reply_not_found() {
    let found = group_get(Ok(Some(Group { id: 4, state: GroupState::Pending, projects: vec![] })));
    assert_eq!(found.unwrap().id, 4);

    let miss = group_get(Ok(None)).unwrap_err();
    assert_eq!(miss.code, ErrCode::EntityNotFound);
    assert_eq!(miss.msg, "sc:schedule-get:1");

    let broken = group_get(Err(StoreError)).unwrap_err();
    assert_eq!(broken.msg, "sc:schedule-get:1");
}

#[test]
fn package_create_echoes_the_stored_package() {
    let pkg = SchedPackage { ident: "core/redis/3.2.4/1".to_string(), deps: vec![] };
    let r = package_create(Ok(pkg)).unwrap();
    assert_eq!(r.ident, "core/redis/3.2.4/1");
    assert!(package_create(Err(StoreError)).is_err());
}

#[test]
fn package_stats_errors_reply_not_found() {
    let ok = package_stats_get(Ok(PackageStats { plans: 10, builds: 3 })).unwrap();
    assert_eq!(ok.plans, 10);
    let err = package_stats_get(Err(StoreError)).unwrap_err();
    assert_eq!(err.code, ErrCode::EntityNotFound);
    assert_eq!(err.msg, "sc:package-stats-get:1");
}
