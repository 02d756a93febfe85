use sup_core::FsCfg;
use sup_core::ManagerConfig;
use sup_core::PackageIdent;
use sup_core::manager::Manager;
use sup_core::paths::state_path_prefix;
use sup_core::service::DesiredState;
use sup_core::service::ServiceSpec;
use sup_core::service::StartStyle;
use sup_core::service::Topology;
use sup_core::service::UpdateStrategy;

#[test]
fn manager_state_path_default() {
    let cfg = ManagerConfig::default();
    let path = Manager::state_path_from(&cfg);

    assert_eq!(format!("{}/default", state_path_prefix()), path);
}

#[test]
fn manager_state_path_with_name() {
    let mut cfg = ManagerConfig::default();
    cfg.name = Some(String::from("peanuts"));
    let path = Manager::state_path_from(&cfg);

    assert_eq!(format!("{}/peanuts", state_path_prefix()), path);
}

#[test]
fn manager_state_path_custom() {
    let mut cfg = ManagerConfig::default();
    cfg.custom_state_path = Some(String::from("/tmp/peanuts-and-cake"));
    let path = Manager::state_path_from(&cfg);

    assert_eq!(String::from("/tmp/peanuts-and-cake"), path);
}

#[test]
fn manager_state_path_custom_beats_name() {
    let mut cfg = ManagerConfig::default();
    cfg.custom_state_path = Some(String::from("/tmp/partay"));
    cfg.name = Some(String::from("nope"));
    let path = Manager::state_path_from(&cfg);

    assert_eq!(String::from("/tmp/partay"), path);
}

#[test]
fn fs_cfg_layout() {
    let fs = FsCfg::new("/hab/sup/default");
    assert_eq!(fs.data_path, "/hab/sup/default/data");
    assert_eq!(fs.butterfly_data_path, "/hab/sup/default/data/butterfly.dat");
    assert_eq!(fs.census_data_path, "/hab/sup/default/data/census.dat");
    assert_eq!(fs.services_data_path, "/hab/sup/default/data/services.dat");
    assert_eq!(fs.specs_path, "/hab/sup/default/specs");
    assert_eq!(fs.proc_lock_file, "/hab/sup/default/LOCK");
}

#[test]
fn health_check_cache_path() {
    let fs = FsCfg::new("/hab/sup/default");
    let group = sup_core::ServiceGroup {
        service: String::from("redis"),
        group: String::from("default"),
        organization: None,
    };
    assert_eq!(
        fs.health_check_cache(&group),
        "/hab/sup/default/data/redis.health"
    );
}

#[test]
fn data_and_specs_paths() {
    assert_eq!(Manager::data_path("/x"), "/x/data");
    assert_eq!(Manager::specs_path("/x"), "/x/specs");
}

#[test]
fn spec_path_for_lives_under_specs() {
    let mut cfg = ManagerConfig::default();
    cfg.custom_state_path = Some(String::from("/tmp/x"));
    let spec = ServiceSpec {
        ident: PackageIdent {
            origin: String::from("core"),
            name: String::from("redis"),
            version: None,
            release: None,
        },
        group: String::from("default"),
        topology: Topology::Standalone,
        update_strategy: UpdateStrategy::NoUpdate,
        desired_state: DesiredState::Up,
        start_style: StartStyle::Persistent,
        binds: vec![],
        config: None,
    };
    assert_eq!(Manager::spec_path_for(&cfg, &spec), "/tmp/x/specs/redis.spec");
}
