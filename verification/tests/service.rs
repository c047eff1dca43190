use task_api::auth::{conclude, screen, Admission, AuthClaims, RoleSet, TokenClaims, Verdict};
use task_api::config::{Config, Settings};
use task_api::error::ApiError;
use task_api::health::{health, HealthReport, HealthStatus, Probe};
use task_api::route::{resolve, Method, Route};
use task_api::service::{check_access, docs_location, respond, Reply};
use task_api::state::AppState;
use task_api::store::{Store, TaskId, UserRecord};
use task_api::task::CreateTaskSchema;
use task_api::user::mirror_user;

fn user(subject: &str) -> AuthClaims {
    AuthClaims { subject: subject.to_string(), roles: RoleSet { user: true, admin: false }, display_name: None, email: None }
}

fn admin(subject: &str) -> AuthClaims {
    AuthClaims { subject: subject.to_string(), roles: RoleSet { user: false, admin: true }, display_name: None, email: None }
}

fn body(title: &str) -> Option<CreateTaskSchema> {
    Some(CreateTaskSchema { title: title.to_string(), description: None })
}

/// What a request with the given header gets, with the token judged as `verdict`.
fn request(store: &mut Store, method: Method, path: &str, header: Option<&str>, verdict: Verdict) -> Reply {
    let route = resolve(method, path);
    let caller = match screen(route.access(), header, true) {
        Admission::Skip => None,
        Admission::Reject(e) => return Reply::Failed(e),
        Admission::FetchKeys(_) => unreachable!(),
        Admission::Verify(_) => match conclude(route.access(), verdict) {
            Ok(claims) => Some(claims),
            Err(e) => return Reply::Failed(e),
        },
    };
    respond(store, route, caller.as_ref(), body("from the body"), Probe::Responded, 7)
}

fn valid(subject: &str, roles: &[&str]) -> Verdict {
    Verdict::Valid(TokenClaims {
        subject: subject.to_string(),
        role_names: roles.iter().map(|r| r.to_string()).collect(),
        display_name: None,
        email: None,
    })
}

#[test]
fn health_reports() {
    assert_eq!(health(Probe::Skipped), HealthReport { status: HealthStatus::Healthy, http_status: 200 });
    assert_eq!(health(Probe::Responded), HealthReport { status: HealthStatus::Healthy, http_status: 200 });
    assert_eq!(health(Probe::TimedOut), HealthReport { status: HealthStatus::Degraded, http_status: 200 });
    assert_eq!(health(Probe::Unreachable), HealthReport { status: HealthStatus::Degraded, http_status: 200 });
}

#[test]
fn protected_routes_without_authorization_header() {
    let mut store = Store::new();
    for (method, path) in [
        (Method::Post, "/tasks"),
        (Method::Get, "/tasks"),
        (Method::Delete, "/tasks/0"),
        (Method::Get, "/users"),
        (Method::Delete, "/users/alice"),
    ] {
        let reply = request(&mut store, method, path, None, Verdict::Malformed);
        assert_eq!(reply, Reply::Failed(ApiError::Unauthenticated));
        assert_eq!(reply.status(), Some(401));
    }
    assert_eq!(store.task_count(), 0);
}

#[test]
fn expired_token_on_protected_routes() {
    let mut store = Store::new();
    for (method, path) in [(Method::Post, "/tasks"), (Method::Get, "/tasks"), (Method::Get, "/users")] {
        let reply = request(&mut store, method, path, Some("Bearer aaa.bbb.ccc"), Verdict::Expired);
        assert_eq!(reply, Reply::Failed(ApiError::Unauthenticated));
    }
}

#[test]
fn non_admin_token_on_users_is_forbidden() {
    let mut store = Store::new();
    let reply = request(&mut store, Method::Get, "/users", Some("Bearer aaa.bbb.ccc"), valid("alice", &["user"]));
    assert_eq!(reply, Reply::Failed(ApiError::Forbidden));
    assert_eq!(reply.status(), Some(403));
    let reply = request(&mut store, Method::Delete, "/users/bob", Some("Bearer aaa.bbb.ccc"), valid("alice", &["user"]));
    assert_eq!(reply, Reply::Failed(ApiError::Forbidden));
}

#[test]
fn admin_token_on_users_lists_them() {
    let mut store = Store::new();
    mirror_user(&mut store, &user("alice"));
    let reply = request(&mut store, Method::Get, "/users", Some("Bearer t"), valid("root", &["admin"]));
    assert_eq!(
        reply,
        Reply::Users(vec![UserRecord { subject: "alice".to_string(), display_name: None, email: None }])
    );
    assert_eq!(reply.status(), Some(200));
    let reply = request(&mut store, Method::Delete, "/users/alice", Some("Bearer t"), valid("root", &["admin"]));
    assert_eq!(reply, Reply::Deleted);
    assert_eq!(reply.status(), Some(204));
    let reply = request(&mut store, Method::Delete, "/users/alice", Some("Bearer t"), valid("root", &["admin"]));
    assert_eq!(reply, Reply::Failed(ApiError::NotFound));
}

#[test]
fn tasks_through_the_whole_pipeline() {
    let mut store = Store::new();
    let created = request(&mut store, Method::Post, "/tasks", Some("Bearer t"), valid("alice", &["user"]));
    assert_eq!(created.status(), Some(201));
    let task = match created {
        Reply::Created(task) => task,
        other => panic!("unexpected reply {:?}", other),
    };
    assert_eq!(task.owner, "alice");
    assert_eq!(task.title, "from the body");
    assert_eq!(task.created_at, 7);
    let listed = request(&mut store, Method::Get, "/tasks", Some("Bearer t"), valid("alice", &[]));
    assert_eq!(listed, Reply::Tasks(vec![task.clone()]));
    let listed = request(&mut store, Method::Get, "/tasks", Some("Bearer t"), valid("bob", &["user"]));
    assert_eq!(listed, Reply::Tasks(vec![]));
    let foreign = request(&mut store, Method::Delete, "/tasks/0", Some("Bearer t"), valid("bob", &["user"]));
    let missing = request(&mut store, Method::Delete, "/tasks/does-not-exist", Some("Bearer t"), valid("bob", &["user"]));
    assert_eq!(foreign, Reply::Failed(ApiError::NotFound));
    assert_eq!(foreign, missing);
    assert_eq!(foreign.status(), Some(404));
    let own = request(&mut store, Method::Delete, "/tasks/0", Some("Bearer t"), valid("alice", &["user"]));
    assert_eq!(own, Reply::Deleted);
    let again = request(&mut store, Method::Delete, "/tasks/0", Some("Bearer t"), valid("alice", &["user"]));
    assert_eq!(again, Reply::Failed(ApiError::NotFound));
}

#[test]
fn respond_checks_the_caller_itself() {
    let mut store = Store::new();
    let alice = user("alice");
    let root = admin("root");
    assert_eq!(
        respond(&mut store, Route::ListTasks, None, None, Probe::Skipped, 0),
        Reply::Failed(ApiError::Unauthenticated)
    );
    assert_eq!(
        respond(&mut store, Route::CreateTask, None, body("x"), Probe::Skipped, 0),
        Reply::Failed(ApiError::Unauthenticated)
    );
    assert_eq!(
        respond(&mut store, Route::ListUsers, None, None, Probe::Skipped, 0),
        Reply::Failed(ApiError::Unauthenticated)
    );
    assert_eq!(
        respond(&mut store, Route::ListUsers, Some(&alice), None, Probe::Skipped, 0),
        Reply::Failed(ApiError::Forbidden)
    );
    assert_eq!(respond(&mut store, Route::ListUsers, Some(&root), None, Probe::Skipped, 0), Reply::Users(vec![]));
    assert_eq!(store.task_count(), 0);
    assert_eq!(check_access(Route::Health.access(), None), None);
    assert_eq!(check_access(Route::ListTasks.access(), Some(&alice)), None);
    assert_eq!(check_access(Route::ListUsers.access(), Some(&alice)), Some(ApiError::Forbidden));
    assert_eq!(check_access(Route::ListUsers.access(), Some(&root)), None);
}

#[test]
fn create_without_body_or_title_is_a_validation_error() {
    let mut store = Store::new();
    let alice = user("alice");
    let reply = respond(&mut store, Route::CreateTask, Some(&alice), None, Probe::Skipped, 0);
    assert_eq!(reply, Reply::Failed(ApiError::Validation));
    assert_eq!(reply.status(), Some(400));
    let reply = respond(&mut store, Route::CreateTask, Some(&alice), body("   "), Probe::Skipped, 0);
    assert_eq!(reply, Reply::Failed(ApiError::Validation));
    assert_eq!(store.task_count(), 0);
}

#[test]
fn delete_with_an_id_that_is_no_id_is_not_found() {
    let mut store = Store::new();
    let alice = user("alice");
    respond(&mut store, Route::CreateTask, Some(&alice), body("t"), Probe::Skipped, 0);
    for text in ["task-123", "", "0x0", "-0", "99999999999999999999999"] {
        let reply = respond(&mut store, Route::DeleteTask(text.to_string()), Some(&alice), None, Probe::Skipped, 0);
        assert_eq!(reply, Reply::Failed(ApiError::NotFound));
    }
    assert_eq!(store.task(TaskId(0)).map(|t| t.title.clone()), Some("t".to_string()));
    let reply = respond(&mut store, Route::DeleteTask("000".to_string()), Some(&alice), None, Probe::Skipped, 0);
    assert_eq!(reply, Reply::Deleted);
}

#[test]
fn open_routes_need_no_token() {
    let mut store = Store::new();
    let reply = request(&mut store, Method::Get, "/health", None, Verdict::Malformed);
    assert_eq!(reply, Reply::Health(HealthReport { status: HealthStatus::Healthy, http_status: 200 }));
    assert_eq!(reply.status(), Some(200));
    let degraded = respond(&mut store, Route::Health, None, None, Probe::TimedOut, 0);
    assert_eq!(degraded, Reply::Health(HealthReport { status: HealthStatus::Degraded, http_status: 200 }));
    assert_eq!(degraded.status(), Some(200));
    let redirect = request(&mut store, Method::Get, "/docs", None, Verdict::Malformed);
    assert_eq!(redirect, Reply::Redirect);
    assert_eq!(redirect.status(), Some(307));
    assert_eq!(docs_location(), "/swagger-ui");
    for path in ["/api-docs/openapi.json", "/swagger-ui/", "/favicon.ico"] {
        let reply = request(&mut store, Method::Get, path, Some("Bearer expired"), Verdict::Expired);
        assert_eq!(reply, Reply::Delegated);
        assert_eq!(reply.status(), None);
    }
}

#[test]
fn app_state_bundles_handle_and_config() {
    let config = Config::load(Settings {
        database_url: Some("postgres://db/tasks".to_string()),
        host: Some("127.0.0.1".to_string()),
        port: Some("3000".to_string()),
        identity_url: Some("http://localhost:8081".to_string()),
        realm: Some("dev".to_string()),
    })
    .unwrap();
    let state = AppState::new(Store::new(), config.clone());
    assert_eq!(state.config, config);
    assert_eq!(state.db.task_count(), 0);
    assert_eq!(state.config.bind_address(), "127.0.0.1:3000");
}
