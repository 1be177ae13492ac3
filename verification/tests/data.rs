use satyanaash::data::{
    default_auth_type, default_delay, default_repeat_count, AuthType, ExecutionState,
    ParseErrors, TestCaseConfig, TestResult,
};

#[test]
fn test_test_case_config_default() {
    let config = TestCaseConfig::default();
    assert_eq!(config.repeat_count, 1);
    assert_eq!(config.auth_type, AuthType::NoAuth);
    assert_eq!(config.delay, 0);
}

#[test]
fn test_auth_type_methods() {
    assert!(AuthType::Authorized.is_authorized());
    assert!(!AuthType::Authorized.is_authorizer());

    assert!(AuthType::Authorizer.is_authorizer());
    assert!(!AuthType::Authorizer.is_authorized());

    assert!(!AuthType::NoAuth.is_authorized());
    assert!(!AuthType::NoAuth.is_authorizer());
}

#[test]
fn test_test_case_config_auth_methods() {
    let config = TestCaseConfig { repeat_count: 1, auth_type: AuthType::Authorized, delay: 0 };

    assert!(config.is_authorized());
    assert!(!config.is_authorizer());
}

#[test]
fn test_parse_errors() {
    let mut errors = ParseErrors::new();
    assert!(!errors.has_errors());

    errors.add_error("field1", "error message");
    assert!(errors.has_errors());
    assert_eq!(errors.errors.len(), 1);
    assert_eq!(errors.errors[0].field, "field1");
    assert_eq!(errors.errors[0].message, "error message");
}

#[test]
fn test_execution_state_new() {
    let state = ExecutionState::new();
    assert_eq!(state.effective_name, "");
    assert_eq!(state.effective_url, "");
    assert_eq!(state.effective_payload, "");
    assert_eq!(state.content_type, "");
    assert_eq!(state.result, TestResult::NotYetTested);
}

#[test]
fn test_test_result_equality() {
    assert_eq!(TestResult::NotYetTested, TestResult::NotYetTested);
    assert_eq!(TestResult::Passed, TestResult::Passed);
    assert_eq!(TestResult::Failed, TestResult::Failed);
    assert_eq!(TestResult::Skipped, TestResult::Skipped);

    assert_ne!(TestResult::Passed, TestResult::Failed);
}

#[test]
fn defaults_are_one_repeat_no_auth_no_delay() {
    assert_eq!(default_repeat_count(), 1);
    assert_eq!(default_auth_type(), AuthType::NoAuth);
    assert_eq!(default_delay(), 0);
}

#[test]
fn parse_errors_keep_their_order() {
    let mut errors = ParseErrors::new();
    errors.add_error("id", "first");
    errors.add_error("url", "second");
    let pairs = errors.into_pairs();
    assert_eq!(
        pairs,
        vec![("id".to_string(), "first".to_string()), ("url".to_string(), "second".to_string())]
    );
}

#[test]
fn test_sat_test_error() {
    // A post-script that throws is reported as a failed evaluation, and a
    // failed evaluation never passes.
    let ctx = satyanaash::context::TestCtx::new();
    assert!(!ctx.verify_result(&satyanaash::context::ScriptOutcome::Failed));
}
