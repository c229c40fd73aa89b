use fedimint_consensus::api::attach_endpoints;
use fedimint_consensus::api::check_auth;
use fedimint_consensus::api::decimal_string;
use fedimint_consensus::api::endpoint_path;
use fedimint_consensus::api::handler_response;
use fedimint_consensus::api::is_valid_path;
use fedimint_consensus::api::ApiEndpoint;
use fedimint_consensus::api::ApiEndpointContext;
use fedimint_consensus::api::ApiError;
use fedimint_consensus::api::ErrorObject;
use fedimint_consensus::api::ExpiringCache;
use fedimint_consensus::api::HandlerOutcome;
use fedimint_consensus::api::RegisteredEndpoint;
use fedimint_consensus::api::RpcModule;
use fedimint_consensus::api::API_ENDPOINT_TIMEOUT_SECS;
use fedimint_consensus::api::CONSENSUS_STATUS_CACHE_TTL_MS;
use fedimint_consensus::config::ConfigError;

fn endpoints(names: &[&str]) -> Vec<ApiEndpoint> {
    names.iter().map(|n| ApiEndpoint { path: n.to_string() }).collect()
}

#[test]
fn paths_are_lowercase_digits_and_underscores() {
    assert!(is_valid_path("a"));
    assert!(is_valid_path("fetch_epoch_history"));
    assert!(is_valid_path("module_0_block_height"));
    assert!(is_valid_path("0123456789_abcdefghijklmnopqrstuvwxyz"));
    assert!(!is_valid_path(""));
    assert!(!is_valid_path("Fetch"));
    assert!(!is_valid_path("fetch-epoch"));
    assert!(!is_valid_path("fetch epoch"));
    assert!(!is_valid_path("/status"));
    assert!(!is_valid_path("status\n"));
    assert!(!is_valid_path("st\u{e4}tus"));
    assert!(!is_valid_path("a`"));
    assert!(!is_valid_path("a{"));
    assert!(!is_valid_path("a/"));
    assert!(!is_valid_path("a:"));
    assert!(!is_valid_path("a^"));
}

#[test]
fn numbers_are_written_in_decimal() {
    assert_eq!(decimal_string(0), "0");
    assert_eq!(decimal_string(7), "7");
    assert_eq!(decimal_string(10), "10");
    assert_eq!(decimal_string(409), "409");
    assert_eq!(decimal_string(65535), "65535");
}

#[test]
fn module_endpoints_are_prefixed() {
    assert_eq!(endpoint_path("status", None), "status");
    assert_eq!(endpoint_path("block_height", Some(2)), "module_2_block_height");
    assert_eq!(endpoint_path("x", Some(120)), "module_120_x");
    assert_eq!(endpoint_path("", Some(0)), "module_0_");
}

#[test]
fn endpoints_are_attached_in_order() {
    let mut rpc = RpcModule::new();
    assert_eq!(attach_endpoints(&mut rpc, &endpoints(&["status", "version"]), None), Ok(()));
    assert_eq!(attach_endpoints(&mut rpc, &endpoints(&["status"]), Some(3)), Ok(()));
    assert_eq!(rpc.len(), 3);
    assert_eq!(
        *rpc.method(0),
        RegisteredEndpoint {
            path: "status".to_string(),
            module_instance_id: None,
            name: "status".to_string()
        }
    );
    assert_eq!(rpc.method(1).path, "version");
    assert_eq!(
        *rpc.method(2),
        RegisteredEndpoint {
            path: "module_3_status".to_string(),
            module_instance_id: Some(3),
            name: "status".to_string()
        }
    );
    assert_eq!(rpc.find(&"module_3_status".to_string()), Some(2));
    assert_eq!(rpc.find(&"module_4_status".to_string()), None);
}

#[test]
fn a_bad_path_attaches_nothing() {
    let mut rpc = RpcModule::new();
    assert_eq!(attach_endpoints(&mut rpc, &endpoints(&["status"]), None), Ok(()));
    assert_eq!(
        attach_endpoints(&mut rpc, &endpoints(&["good", "Bad", "worse!"]), Some(1)),
        Err(ConfigError::BadEndpointPath { path: "module_1_Bad".to_string() })
    );
    assert_eq!(rpc.len(), 1);
    assert_eq!(
        attach_endpoints(&mut rpc, &endpoints(&[""]), None),
        Err(ConfigError::BadEndpointPath { path: "".to_string() })
    );
    assert_eq!(rpc.len(), 1);
}

#[test]
fn a_taken_path_attaches_nothing() {
    let mut rpc = RpcModule::new();
    assert_eq!(attach_endpoints(&mut rpc, &endpoints(&["status", "module_1_x"]), None), Ok(()));
    assert_eq!(
        attach_endpoints(&mut rpc, &endpoints(&["y", "x"]), Some(1)),
        Err(ConfigError::DuplicateEndpoint { path: "module_1_x".to_string() })
    );
    assert_eq!(
        attach_endpoints(&mut rpc, &endpoints(&["z", "z"]), Some(1)),
        Err(ConfigError::DuplicateEndpoint { path: "module_1_z".to_string() })
    );
    assert_eq!(rpc.len(), 2);
}

#[test]
fn replies_follow_the_handlers_fate() {
    assert_eq!(
        handler_response(HandlerOutcome::Returned("{\"ok\":true}".to_string())),
        Ok("{\"ok\":true}".to_string())
    );
    assert_eq!(
        handler_response(HandlerOutcome::TimedOut),
        Err(ErrorObject { code: -32000, message: "Request timeout".to_string() })
    );
    assert_eq!(
        handler_response(HandlerOutcome::Panicked),
        Err(ErrorObject { code: 500, message: "API handler panicked".to_string() })
    );
    assert_eq!(
        handler_response(HandlerOutcome::BadParams("missing field".to_string())),
        Err(ErrorObject { code: 400, message: "missing field".to_string() })
    );
    assert_eq!(
        handler_response(HandlerOutcome::Failed(ApiError::not_found("no such epoch".to_string()))),
        Err(ErrorObject { code: 404, message: "no such epoch".to_string() })
    );
    assert_eq!(
        handler_response(HandlerOutcome::Failed(ApiError::new(422, "odd".to_string()))),
        Err(ErrorObject { code: 422, message: "odd".to_string() })
    );
    assert_eq!(API_ENDPOINT_TIMEOUT_SECS, 60);
}

#[test]
fn api_errors_carry_their_codes() {
    assert_eq!(ApiError::bad_request("b".to_string()), ApiError { code: 400, message: "b".to_string() });
    assert_eq!(
        ApiError::unauthorized(),
        ApiError { code: 401, message: "Invalid authorization".to_string() }
    );
    assert_eq!(ApiError::not_found("n".to_string()).code, 404);
    assert_eq!(ApiError::server_error("s".to_string()).code, 500);
}

#[test]
fn only_the_right_credential_authenticates() {
    let secret = "hunter2".to_string();
    let mut right = ApiEndpointContext::new(Some(&"hunter2".to_string()), &secret, None);
    let mut wrong = ApiEndpointContext::new(Some(&"hunter3".to_string()), &secret, Some(1));
    let mut missing = ApiEndpointContext::new(None, &secret, None);
    assert!(right.has_auth());
    assert!(!wrong.has_auth());
    assert!(!missing.has_auth());
    assert_eq!(wrong.module_instance_id(), Some(1));
    assert_eq!(check_auth(&mut right), Ok(()));
    assert_eq!(check_auth(&mut wrong), Err(ApiError::unauthorized()));
    assert_eq!(check_auth(&mut missing), Err(ApiError::unauthorized()));
    assert!(right.has_auth());
}

#[test]
fn cache_serves_a_value_for_its_time_to_live() {
    let mut cache: ExpiringCache<String> = ExpiringCache::new(CONSENSUS_STATUS_CACHE_TTL_MS);
    assert_eq!(CONSENSUS_STATUS_CACHE_TTL_MS, 500);
    assert_eq!(cache.get(0), None);
    cache.put("status".to_string(), 1000);
    assert_eq!(cache.get(1000), Some(&"status".to_string()));
    assert_eq!(cache.get(1499), Some(&"status".to_string()));
    assert_eq!(cache.get(1500), None);
    assert_eq!(cache.get(999), None);
    cache.put("newer".to_string(), 1500);
    assert_eq!(cache.get(1999), Some(&"newer".to_string()));
    assert_eq!(cache.get(u64::MAX), None);
}
