use reyn_studio::access::{
    access_required, build_contract_json, configured_endpoint, print_build_contract_requested,
    studio_lifecycle_action, validate_endpoint, LoginFailure, StudioLifecycleAction,
    MAX_SESSION_LIFETIME_SECONDS, PRIVACY_VERSION, REQUEST_TIMEOUT_SECONDS, RESPONSE_LIMIT_BYTES,
    SESSION_REVALIDATION_SECONDS, TERMS_VERSION,
};
use serde_json::Value;

const ENDPOINT: &str = "https://reynflow.com/api/yc-access/v1/session";

#[test]
fn endpoint_requires_https_without_fragment_or_credentials() {
    assert!(validate_endpoint("https://reynflow.com/api/yc-access/v1/session").is_ok());
    assert_eq!(
        validate_endpoint("http://reynflow.com/api").unwrap_err(),
        LoginFailure::Configuration("The preview access endpoint must use HTTPS.")
    );
    assert!(validate_endpoint("https://user@reynflow.com/api").is_err());
    assert!(validate_endpoint("https://reynflow.com/api#token").is_err());
    assert!(validate_endpoint("https://reyn flow.com/api").is_err());
}

#[test]
fn malformed_endpoints_are_named_so() {
    for endpoint in ["https://a@b", "https://a#b", "https://a\u{2003}b", "https://a\n"] {
        assert_eq!(
            validate_endpoint(endpoint),
            Err(LoginFailure::Configuration("The preview access endpoint is malformed."))
        );
    }
    assert_eq!(validate_endpoint("https://"), Ok(()));
    assert_eq!(
        validate_endpoint("HTTPS://reynflow.com"),
        Err(LoginFailure::Configuration("The preview access endpoint must use HTTPS."))
    );
}

#[test]
fn configured_endpoints_are_checked() {
    assert_eq!(configured_endpoint(Some(ENDPOINT)), Ok(ENDPOINT));
    assert_eq!(
        configured_endpoint(None),
        Err(LoginFailure::Configuration(
            "This official preview was built without an access endpoint."
        ))
    );
    assert_eq!(
        configured_endpoint(Some("ftp://reynflow.com")),
        Err(LoginFailure::Configuration("The preview access endpoint must use HTTPS."))
    );
}

#[test]
fn failures_have_user_safe_messages() {
    for failure in [
        LoginFailure::InvalidCredentials,
        LoginFailure::RateLimited,
        LoginFailure::PolicyOutdated,
        LoginFailure::InvalidSession,
        LoginFailure::SessionExpired,
        LoginFailure::Network,
        LoginFailure::Service,
    ] {
        let message = failure.message();
        assert!(!message.is_empty());
        assert!(!message.contains("token"));
        assert!(!message.contains("secret"));
    }
}

#[test]
fn failures_keep_their_wording() {
    assert_eq!(
        LoginFailure::RateLimited.message(),
        "Too many attempts. Wait one minute, then try again."
    );
    assert_eq!(LoginFailure::Configuration("as given").message(), "as given");
}

#[test]
fn public_builds_are_not_access_gated_by_default() {
    assert!(!access_required(None, None));
    assert!(!access_required(None, Some(ENDPOINT)));
}

#[test]
fn only_the_exact_flag_with_an_endpoint_gates_a_build() {
    assert!(access_required(Some("1"), Some(ENDPOINT)));
    assert!(access_required(Some("1"), Some("not usable")));
    assert!(!access_required(Some("1"), None));
    for flag in ["", "0", "true", "1 ", "11"] {
        assert!(!access_required(Some(flag), Some(ENDPOINT)));
    }
}

#[test]
fn lifecycle_never_starts_gated_studio_before_access_and_drops_it_on_expiry() {
    assert_eq!(
        studio_lifecycle_action(true, false, false),
        StudioLifecycleAction::Keep
    );
    assert_eq!(
        studio_lifecycle_action(true, true, false),
        StudioLifecycleAction::Start
    );
    assert_eq!(
        studio_lifecycle_action(true, false, true),
        StudioLifecycleAction::Drop
    );
    assert_eq!(
        studio_lifecycle_action(false, false, false),
        StudioLifecycleAction::Start
    );
    assert_eq!(
        studio_lifecycle_action(false, false, true),
        StudioLifecycleAction::Keep
    );
}

#[test]
fn access_contract_cli_requires_the_exact_single_switch() {
    assert!(print_build_contract_requested(vec![
        "reyn-studio".into(),
        "--print-access-contract".into(),
    ]));
    assert!(!print_build_contract_requested(vec!["reyn-studio".into()]));
    assert!(!print_build_contract_requested(vec![
        "reyn-studio".into(),
        "--print-access-contract".into(),
        "extra".into(),
    ]));
}

#[test]
fn other_command_lines_do_not_ask_for_the_contract() {
    assert!(!print_build_contract_requested(vec![]));
    assert!(!print_build_contract_requested(vec!["--print-access-contract".into()]));
    assert!(!print_build_contract_requested(vec![
        "reyn-studio".into(),
        "--print-access-contracts".into(),
    ]));
}

#[test]
fn build_contract_contains_no_credentials() {
    let contract = build_contract_json(None, None);
    assert!(contract.contains("com.reyn.studio.preview-access/1"));
    assert!(!contract.contains("password"));
    assert!(!contract.contains("username"));
}

#[test]
fn build_contract_is_compact_json_in_key_order() {
    assert_eq!(
        build_contract_json(Some("1"), Some(ENDPOINT)),
        "{\"endpoint\":\"https://reynflow.com/api/yc-access/v1/session\",\
         \"privacy_version\":\"1.0\",\"required\":true,\
         \"schema\":\"com.reyn.studio.preview-access/1\",\"terms_version\":\"1.0\"}"
    );
    assert_eq!(
        build_contract_json(None, None),
        "{\"endpoint\":null,\"privacy_version\":\"1.0\",\"required\":false,\
         \"schema\":\"com.reyn.studio.preview-access/1\",\"terms_version\":\"1.0\"}"
    );
}

#[test]
fn build_contract_states_no_unusable_endpoint() {
    let contract: Value =
        serde_json::from_str(&build_contract_json(Some("1"), Some("http://reynflow.com"))).unwrap();
    assert_eq!(contract["endpoint"], Value::Null);
    assert_eq!(contract["required"], Value::Bool(true));
    let ungated: Value = serde_json::from_str(&build_contract_json(Some("1"), None)).unwrap();
    assert_eq!(ungated["required"], Value::Bool(false));
    assert_eq!(contract["terms_version"], Value::from(TERMS_VERSION));
    assert_eq!(contract["privacy_version"], Value::from(PRIVACY_VERSION));
    assert_eq!(contract.as_object().unwrap().len(), 5);
    let quoted: Value =
        serde_json::from_str(&build_contract_json(None, Some("https://a\"b\\c"))).unwrap();
    assert_eq!(quoted["endpoint"], Value::from("https://a\"b\\c"));
}

#[test]
fn native_request_and_response_bounds_remain_finite() {
    assert_eq!(REQUEST_TIMEOUT_SECONDS, 15);
    assert_eq!(RESPONSE_LIMIT_BYTES, 32 * 1024);
    assert_eq!(MAX_SESSION_LIFETIME_SECONDS, 24 * 60 * 60);
    assert_eq!(SESSION_REVALIDATION_SECONDS, 15 * 60);
}
