use task_api::auth::{screen, Admission, AuthClaims, Authority, RoleSet};
use task_api::config::{Config, ConfigError, Setting};
use task_api::error::ApiError;
use task_api::route::Access;
use task_api::task::{judge, validate_title, Ownership};
use task_api::user::answer_removal;

fn caller(subject: &str) -> AuthClaims {
    AuthClaims { subject: subject.to_string(), roles: RoleSet { user: true, admin: false }, display_name: None, email: None }
}

#[test]
fn titles_are_validated_after_trimming() {
    assert_eq!(validate_title(""), Err(ApiError::Validation));
    assert_eq!(validate_title("   "), Err(ApiError::Validation));
    assert_eq!(validate_title("\n\t"), Err(ApiError::Validation));
    assert_eq!(validate_title(" x "), Ok(()));
    assert_eq!(validate_title("buy milk"), Ok(()));
}

#[test]
fn stored_owner_decides_the_standing() {
    let alice = caller("alice");
    assert_eq!(judge(Some(&"alice".to_string()), &alice), Ownership::Owned);
    assert_eq!(judge(Some(&"bob".to_string()), &alice), Ownership::Foreign);
    assert_eq!(judge(Some(&"Alice".to_string()), &alice), Ownership::Foreign);
    assert_eq!(judge(None, &alice), Ownership::Absent);
}

#[test]
fn foreign_and_absent_tasks_get_the_same_answer() {
    assert_eq!(Ownership::Owned.permits_delete(), Ok(()));
    assert_eq!(Ownership::Foreign.permits_delete(), Err(ApiError::NotFound));
    assert_eq!(Ownership::Absent.permits_delete(), Err(ApiError::NotFound));
    assert_eq!(Ownership::Foreign.permits_delete(), Ownership::Absent.permits_delete());
}

#[test]
fn removal_of_nothing_is_not_found() {
    assert_eq!(answer_removal(true), Ok(()));
    assert_eq!(answer_removal(false), Err(ApiError::NotFound));
}

#[test]
fn settings_name_their_variables() {
    assert_eq!(Setting::DatabaseUrl.variable(), "DATABASE_URL");
    assert_eq!(Setting::Host.variable(), "HOST");
    assert_eq!(Setting::Port.variable(), "PORT");
    assert_eq!(Setting::IdentityUrl.variable(), "KEYCLOAK_URL");
    assert_eq!(Setting::Realm.variable(), "REALM");
    assert_eq!(ConfigError::Missing(Setting::Port).setting(), Setting::Port);
    assert_eq!(ConfigError::Malformed(Setting::IdentityUrl).setting(), Setting::IdentityUrl);
}

#[test]
fn authority_starts_without_keys_and_keeps_them_once_fetched() {
    let config = Config {
        database_url: "postgres://db/tasks".to_string(),
        host: "::1".to_string(),
        port: 8443,
        identity_url: "https://id.example.org/".to_string(),
        realm: "prod".to_string(),
    };
    let mut authority = Authority::from_config(&config);
    assert_eq!(
        authority,
        Authority { server: "https://id.example.org/".to_string(), realm: "prod".to_string(), keys_cached: false }
    );
    assert_eq!(
        screen(Access::Authenticated, Some("Bearer t"), authority.keys_cached),
        Admission::FetchKeys("t".to_string())
    );
    authority.note_fetch(false);
    assert!(!authority.keys_cached);
    authority.note_fetch(true);
    assert!(authority.keys_cached);
    authority.note_fetch(false);
    assert!(authority.keys_cached);
    assert_eq!(
        screen(Access::Authenticated, Some("Bearer t"), authority.keys_cached),
        Admission::Verify("t".to_string())
    );
    assert_eq!(authority.server, "https://id.example.org/");
    assert_eq!(config.bind_address(), "::1:8443");
}
