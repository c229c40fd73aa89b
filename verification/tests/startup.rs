use fedimint_consensus::api::ApiEndpoint;
use fedimint_consensus::channel::TRANSACTION_BUFFER;
use fedimint_consensus::config::ConfigError;
use fedimint_consensus::config::ModuleConfig;
use fedimint_consensus::config::ServerConfig;
use fedimint_consensus::config::ServerModuleInit;
use fedimint_consensus::engine::Phase;
use fedimint_consensus::registry::database_prefix;
use fedimint_consensus::registry::ModuleEntry;
use fedimint_consensus::registry::ModuleRegistry;
use fedimint_consensus::startup::build_registry;
use fedimint_consensus::startup::lookup_init;
use fedimint_consensus::startup::spawn_api_and_build_engine;
use fedimint_consensus::startup::start_consensus_api;
use fedimint_consensus::startup::startup_steps;
use fedimint_consensus::startup::StartupStep;
use fedimint_consensus::types::ModuleKind;

fn kind(name: &str) -> ModuleKind {
    ModuleKind::new(name)
}

fn endpoints(names: &[&str]) -> Vec<ApiEndpoint> {
    names.iter().map(|n| ApiEndpoint { path: n.to_string() }).collect()
}

fn inits() -> Vec<ServerModuleInit> {
    vec![
        ServerModuleInit { kind: kind("mint"), database_version: 2, endpoints: endpoints(&["backup"]) },
        ServerModuleInit {
            kind: kind("wallet"),
            database_version: 5,
            endpoints: endpoints(&["block_height", "peg_out_fees"]),
        },
    ]
}

fn config(modules: &[(u16, &str)]) -> ServerConfig {
    ServerConfig {
        identity: 1,
        num_peers: 4,
        epoch_pk: [7u8; 48],
        modules: modules.iter().map(|(id, k)| ModuleConfig { id: *id, kind: kind(k) }).collect(),
    }
}

#[test]
fn registry_is_ordered_by_id() {
    let registry = build_registry(&config(&[(5, "wallet"), (1, "mint"), (3, "mint")]).modules, &inits()).unwrap();
    assert_eq!(registry.len(), 3);
    assert_eq!(
        registry.entries_in_order(),
        vec![
            ModuleEntry { id: 1, kind: kind("mint") },
            ModuleEntry { id: 3, kind: kind("mint") },
            ModuleEntry { id: 5, kind: kind("wallet") },
        ]
    );
    assert_eq!(registry.kind_of(5), Some(&kind("wallet")));
    assert_eq!(registry.kind_of(2), None);
    assert!(registry.contains(1));
    assert!(!registry.contains(0));
}

#[test]
fn registry_refuses_a_taken_id() {
    let mut registry = ModuleRegistry::new();
    assert!(registry.insert(4, kind("mint")));
    assert!(!registry.insert(4, kind("wallet")));
    assert_eq!(registry.len(), 1);
    assert_eq!(registry.kind_of(4), Some(&kind("mint")));
}

#[test]
fn an_unknown_kind_fails_the_start() {
    assert_eq!(
        build_registry(&config(&[(0, "mint"), (1, "lightning"), (2, "nope")]).modules, &inits()).err(),
        Some(ConfigError::UnsupportedModule { id: 1 })
    );
    let res = spawn_api_and_build_engine(
        &config(&[(0, "mint"), (1, "lightning")]),
        &inits(),
        &endpoints(&["status"]),
        None,
        false,
    );
    assert_eq!(res.err(), Some(ConfigError::UnsupportedModule { id: 1 }));
}

#[test]
fn a_repeated_id_fails_the_start() {
    assert_eq!(
        build_registry(&config(&[(0, "mint"), (0, "wallet")]).modules, &inits()).err(),
        Some(ConfigError::DuplicateModule { id: 0 })
    );
    assert_eq!(
        build_registry(&config(&[(0, "mint"), (0, "nope")]).modules, &inits()).err(),
        Some(ConfigError::UnsupportedModule { id: 0 })
    );
}

#[test]
fn kinds_are_looked_up_by_name() {
    assert_eq!(lookup_init(&inits(), &kind("wallet")), Some(1));
    assert_eq!(lookup_init(&inits(), &kind("mint")), Some(0));
    assert_eq!(lookup_init(&inits(), &kind("Mint")), None);
    assert_eq!(lookup_init(&vec![], &kind("mint")), None);
}

#[test]
fn api_serves_server_and_module_endpoints() {
    let registry = build_registry(&config(&[(2, "wallet"), (0, "mint")]).modules, &inits()).unwrap();
    let rpc = start_consensus_api(&endpoints(&["status", "transaction"]), &registry, &inits()).unwrap();
    let paths: Vec<String> = (0..rpc.len()).map(|i| rpc.method(i).path.clone()).collect();
    assert_eq!(
        paths,
        vec![
            "status",
            "transaction",
            "module_0_backup",
            "module_2_block_height",
            "module_2_peg_out_fees",
        ]
    );
    assert_eq!(rpc.method(3).module_instance_id, Some(2));
    assert_eq!(rpc.method(3).name, "block_height");
}

#[test]
fn a_bad_endpoint_fails_the_start() {
    let registry = build_registry(&config(&[(0, "mint")]).modules, &inits()).unwrap();
    assert_eq!(
        start_consensus_api(&endpoints(&["Status"]), &registry, &inits()).err(),
        Some(ConfigError::BadEndpointPath { path: "Status".to_string() })
    );
    assert_eq!(
        start_consensus_api(&endpoints(&["module_0_backup"]), &registry, &inits()).err(),
        Some(ConfigError::DuplicateEndpoint { path: "module_0_backup".to_string() })
    );
    let res = spawn_api_and_build_engine(
        &config(&[(0, "mint")]),
        &inits(),
        &endpoints(&["a", "a"]),
        None,
        false,
    );
    assert_eq!(res.err(), Some(ConfigError::DuplicateEndpoint { path: "a".to_string() }));
}

#[test]
fn steps_bring_everything_up_in_order() {
    let cfg = config(&[(2, "wallet"), (0, "mint")]);
    let registry = build_registry(&cfg.modules, &inits()).unwrap();
    assert_eq!(
        startup_steps(&cfg, &registry, &inits(), true),
        vec![
            StartupStep::MigrateGlobalDatabase,
            StartupStep::MigrateModule { module_instance_id: 0, kind: kind("mint"), database_version: 2 },
            StartupStep::InitModule { module_instance_id: 0, kind: kind("mint"), num_peers: 4, identity: 1 },
            StartupStep::MigrateModule { module_instance_id: 2, kind: kind("wallet"), database_version: 5 },
            StartupStep::InitModule { module_instance_id: 2, kind: kind("wallet"), num_peers: 4, identity: 1 },
            StartupStep::OpenSubmissionChannel { capacity: TRANSACTION_BUFFER },
            StartupStep::ServeApi,
            StartupStep::SpawnProposer { module_instance_id: 0, kind: kind("mint"), interval_ms: 100 },
            StartupStep::SpawnProposer { module_instance_id: 2, kind: kind("wallet"), interval_ms: 100 },
            StartupStep::RunEngine,
        ]
    );
}

#[test]
fn a_server_without_modules_still_starts() {
    let (engine, plan) =
        spawn_api_and_build_engine(&config(&[]), &inits(), &endpoints(&["status"]), Some(9), false)
            .unwrap();
    assert_eq!(engine.phase(), Phase::Idle);
    assert_eq!(engine.highest_applied(), Some(9));
    assert_eq!(engine.registry().len(), 0);
    assert_eq!(plan.rpc_module.len(), 1);
    assert_eq!(
        plan.steps,
        vec![
            StartupStep::MigrateGlobalDatabase,
            StartupStep::OpenSubmissionChannel { capacity: 1000 },
            StartupStep::ServeApi,
            StartupStep::RunEngine,
        ]
    );
}

#[test]
fn start_builds_engine_api_and_steps() {
    let (engine, plan) = spawn_api_and_build_engine(
        &config(&[(1, "mint")]),
        &inits(),
        &endpoints(&["status"]),
        None,
        false,
    )
    .unwrap();
    assert!(engine.registry().contains(1));
    assert_eq!(engine.highest_applied(), None);
    assert!(engine.last_ci_by_peer().is_empty());
    assert_eq!(plan.rpc_module.len(), 2);
    assert_eq!(plan.steps.len(), 7);
    assert_eq!(
        plan.steps[5],
        StartupStep::SpawnProposer { module_instance_id: 1, kind: kind("mint"), interval_ms: 1000 }
    );
}

#[test]
fn each_module_has_its_part_of_the_database() {
    assert_eq!(database_prefix(0), "module/0/");
    assert_eq!(database_prefix(17), "module/17/");
    assert_eq!(database_prefix(65535), "module/65535/");
}

#[test]
fn config_errors_say_what_is_wrong() {
    assert_eq!(
        ConfigError::UnsupportedModule { id: 12 }.message(),
        "Detected configuration for unsupported module id: 12"
    );
    assert_eq!(
        ConfigError::DuplicateModule { id: 0 }.message(),
        "Detected configuration for repeated module id: 0"
    );
    assert_eq!(
        ConfigError::BadEndpointPath { path: "A b".to_string() }.message(),
        "Constructing bad path name A b"
    );
    assert_eq!(
        ConfigError::DuplicateEndpoint { path: "status".to_string() }.message(),
        "Failed to register method status"
    );
}
