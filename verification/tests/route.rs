use task_api::route::{resolve, Access, Method, Route};

#[test]
fn table_of_routes() {
    assert_eq!(resolve(Method::Get, "/health"), Route::Health);
    assert_eq!(resolve(Method::Post, "/tasks"), Route::CreateTask);
    assert_eq!(resolve(Method::Get, "/tasks"), Route::ListTasks);
    assert_eq!(resolve(Method::Delete, "/tasks/17"), Route::DeleteTask("17".to_string()));
    assert_eq!(resolve(Method::Delete, "/tasks/does-not-exist"), Route::DeleteTask("does-not-exist".to_string()));
    assert_eq!(resolve(Method::Get, "/users"), Route::ListUsers);
    assert_eq!(resolve(Method::Delete, "/users/4b1f-aa"), Route::DeleteUser("4b1f-aa".to_string()));
    assert_eq!(resolve(Method::Get, "/api-docs/openapi.json"), Route::ApiSchema);
    assert_eq!(resolve(Method::Get, "/swagger-ui"), Route::DocsUi);
    assert_eq!(resolve(Method::Get, "/swagger-ui/"), Route::DocsUi);
    assert_eq!(resolve(Method::Get, "/swagger-ui/index.css"), Route::DocsUi);
    assert_eq!(resolve(Method::Get, "/docs"), Route::DocsRedirect);
}

#[test]
fn everything_else_falls_back_to_static_files() {
    for (method, path) in [
        (Method::Get, "/"),
        (Method::Get, ""),
        (Method::Get, "/index.html"),
        (Method::Get, "/tasks/"),
        (Method::Get, "/tasks/17"),
        (Method::Get, "/health/"),
        (Method::Get, "/swagger-uix"),
        (Method::Post, "/health"),
        (Method::Post, "/users"),
        (Method::Post, "/tasks/17"),
        (Method::Delete, "/tasks"),
        (Method::Delete, "/tasks/"),
        (Method::Delete, "/tasks/1/2"),
        (Method::Delete, "/tasks/1/"),
        (Method::Delete, "/users/"),
        (Method::Delete, "/users"),
        (Method::Delete, "/Tasks/1"),
        (Method::Other, "/tasks"),
        (Method::Other, "/users"),
        (Method::Other, "/health"),
    ] {
        assert_eq!(resolve(method, path), Route::StaticAsset, "{:?} {:?}", method, path);
    }
}

#[test]
fn access_of_each_route() {
    assert_eq!(Route::Health.access(), Access::Open);
    assert_eq!(Route::ApiSchema.access(), Access::Open);
    assert_eq!(Route::DocsUi.access(), Access::Open);
    assert_eq!(Route::DocsRedirect.access(), Access::Open);
    assert_eq!(Route::StaticAsset.access(), Access::Open);
    assert_eq!(Route::CreateTask.access(), Access::Authenticated);
    assert_eq!(Route::ListTasks.access(), Access::Authenticated);
    assert_eq!(Route::DeleteTask("1".to_string()).access(), Access::Authenticated);
    assert_eq!(Route::ListUsers.access(), Access::AdminOnly);
    assert_eq!(Route::DeleteUser("u".to_string()).access(), Access::AdminOnly);
}

#[test]
fn users_path_is_for_administrators() {
    assert_eq!(resolve(Method::Get, "/users").access(), Access::AdminOnly);
    assert_eq!(resolve(Method::Delete, "/users/abc").access(), Access::AdminOnly);
}

#[test]
fn path_segment_keeps_its_characters() {
    assert_eq!(resolve(Method::Delete, "/users/ü ser"), Route::DeleteUser("ü ser".to_string()));
    assert_eq!(resolve(Method::Delete, "/tasks/ 7"), Route::DeleteTask(" 7".to_string()));
}
