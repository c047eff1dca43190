use task_api::error::{ApiError, StartupError};

#[test]
fn api_errors_map_to_statuses() {
    assert_eq!(ApiError::Unauthenticated.status(), 401);
    assert_eq!(ApiError::Forbidden.status(), 403);
    assert_eq!(ApiError::AuthorityUnavailable.status(), 503);
    assert_eq!(ApiError::Validation.status(), 400);
    assert_eq!(ApiError::NotFound.status(), 404);
}

#[test]
fn api_errors_have_stable_kinds() {
    assert_eq!(ApiError::Unauthenticated.kind(), "Unauthenticated");
    assert_eq!(ApiError::Forbidden.kind(), "Forbidden");
    assert_eq!(ApiError::AuthorityUnavailable.kind(), "AuthorityUnavailable");
    assert_eq!(ApiError::Validation.kind(), "ValidationError");
    assert_eq!(ApiError::NotFound.kind(), "NotFound");
}

#[test]
fn api_error_messages_are_fixed() {
    assert_eq!(ApiError::Unauthenticated.message(), "a valid bearer token is required");
    assert_eq!(ApiError::Forbidden.message(), "the caller lacks the required role");
    assert_eq!(ApiError::AuthorityUnavailable.message(), "the identity provider cannot be reached");
    assert_eq!(ApiError::Validation.message(), "the title must not be empty");
    assert_eq!(ApiError::NotFound.message(), "no such resource");
}

#[test]
fn authority_outage_is_not_a_client_fault() {
    assert!(!ApiError::AuthorityUnavailable.is_client_fault());
    assert!(ApiError::Unauthenticated.is_client_fault());
    assert!(ApiError::Forbidden.is_client_fault());
    assert!(ApiError::Validation.is_client_fault());
    assert!(ApiError::NotFound.is_client_fault());
}

#[test]
fn startup_errors_have_distinct_kinds_and_nonzero_exit() {
    let all = [StartupError::Config, StartupError::Connectivity, StartupError::Migration, StartupError::Bind];
    let kinds: Vec<&str> = all.iter().map(|e| e.kind()).collect();
    assert_eq!(kinds, vec!["ConfigError", "ConnectivityError", "MigrationError", "BindError"]);
    for e in all {
        assert_eq!(e.exit_code(), 1);
    }
}
