use fedimint_consensus::clientd::rejection_status;
use fedimint_consensus::clientd::ClientdError;
use fedimint_consensus::clientd::Json;
use fedimint_consensus::clientd::JsonRejection;
use fedimint_consensus::clientd::WaitBlockHeightPayload;
use fedimint_consensus::gateway::ConnectFedPayload;
use fedimint_consensus::gateway::DbFactory;
use fedimint_consensus::gateway::InfoPayload;
use fedimint_consensus::gateway::MemDbFactory;
use fedimint_consensus::gateway::RocksDbFactory;
use fedimint_consensus::gateway::StandardGatewayClientBuilder;
use fedimint_consensus::gateway::ZebedeeGatewayError;
use fedimint_consensus::server::parse_command;
use fedimint_consensus::server::pending_migrations;
use fedimint_consensus::server::Command;
use fedimint_consensus::server::ConfigSource;
use fedimint_consensus::server::FedimintServer;
use fedimint_consensus::server::MigrationError;
use fedimint_consensus::api::ApiEndpoint;
use fedimint_consensus::registry::ModuleRegistry;
use fedimint_consensus::types::same_bytes;
use fedimint_consensus::types::ModuleKind;

fn args(words: &[&str]) -> Vec<String> {
    words.iter().map(|w| w.to_string()).collect()
}

#[test]
fn version_hash_is_the_only_subcommand() {
    assert_eq!(parse_command(&args(&["fedimintd", "version-hash"])), Command::VersionHash);
    assert_eq!(parse_command(&args(&["fedimintd", "version-hash", "more"])), Command::VersionHash);
    assert_eq!(parse_command(&args(&["fedimintd", "/var/lib/fedimint"])), Command::Serve);
    assert_eq!(parse_command(&args(&["fedimintd", "x", "version-hash"])), Command::Serve);
    assert_eq!(parse_command(&args(&["fedimintd", "version-hashes"])), Command::Serve);
    assert_eq!(parse_command(&args(&["fedimintd"])), Command::Serve);
    assert_eq!(parse_command(&args(&[])), Command::Serve);
}

#[test]
fn without_a_password_the_config_is_generated() {
    assert_eq!(FedimintServer::get_config(None), ConfigSource::Generate);
    assert_eq!(
        FedimintServer::get_config(Some("pw".to_string())),
        ConfigSource::Stored { password: "pw".to_string() }
    );
    let server = FedimintServer::new("/data".to_string(), "abc123".to_string());
    assert_eq!(server.data_dir, "/data");
    assert_eq!(server.version_hash, "abc123");
}

#[test]
fn migrations_run_from_the_recorded_version() {
    assert_eq!(pending_migrations(None, 4), Ok((4, 4)));
    assert_eq!(pending_migrations(Some(1), 4), Ok((1, 4)));
    assert_eq!(pending_migrations(Some(4), 4), Ok((4, 4)));
    assert_eq!(
        pending_migrations(Some(5), 4),
        Err(MigrationError::DatabaseTooNew { recorded: 5, current: 4 })
    );
}

#[test]
fn rejected_bodies_get_their_status() {
    assert_eq!(rejection_status(JsonRejection::JsonDataError), 422);
    assert_eq!(rejection_status(JsonRejection::JsonSyntaxError), 400);
    assert_eq!(rejection_status(JsonRejection::MissingJsonContentType), 415);
    assert_eq!(rejection_status(JsonRejection::Other), 500);
    assert_eq!(ClientdError::ClientError("no funds".to_string()).status(), 400);
    assert_eq!(ClientdError::ServerError.status(), 500);
    assert_eq!(Json(WaitBlockHeightPayload { height: 9 }).into_inner().height, 9);
}

#[test]
fn gateway_files_are_named_by_the_federation() {
    let builder = StandardGatewayClientBuilder::new(
        "/gw".to_string(),
        DbFactory::Rocks(RocksDbFactory {}),
    );
    assert_eq!(builder.work_dir(), "/gw");
    assert!(matches!(builder.db_factory(), DbFactory::Rocks(_)));
    assert_eq!(builder.config_file_name("00ff"), "00ff.json");
    assert_eq!(RocksDbFactory {}.database_file_name("00ff"), "00ff.db");
    let _ = DbFactory::Mem(MemDbFactory {});
    assert_eq!(InfoPayload, InfoPayload);
    assert_eq!(
        ConnectFedPayload { invite_code: "fed1".to_string() }.invite_code,
        "fed1"
    );
    assert_eq!(
        ZebedeeGatewayError::Error("x".to_string()),
        ZebedeeGatewayError::Error("x".to_string())
    );
}

#[test]
fn bytes_and_kinds_compare_by_content() {
    assert!(same_bytes(&vec![1, 2], &vec![1, 2]));
    assert!(!same_bytes(&vec![1, 2], &vec![1, 3]));
    assert!(!same_bytes(&vec![1, 2], &vec![1]));
    assert!(ModuleKind::new("mint").same_as(&ModuleKind::new("mint").duplicate()));
    assert!(!ModuleKind::new("mint").same_as(&ModuleKind::new("mints")));
}

#[test]
fn the_consensus_api_serves_the_servers_endpoints() {
    let endpoints = vec![ApiEndpoint { path: "status".to_string() }];
    let rpc = FedimintServer::spawn_consensus_api(&endpoints, &ModuleRegistry::new(), &vec![]).unwrap();
    assert_eq!(rpc.len(), 1);
    assert_eq!(rpc.method(0).path, "status");
}
