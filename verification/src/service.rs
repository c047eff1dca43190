//! The last leg of a request: from the route and the caller that the middleware
//! let through to the handler's answer.

use vstd::prelude::*;
use crate::auth::{AuthClaims, AuthClaimsView, Role};
use crate::error::ApiError;
use crate::health::{health, health_of, HealthReport, Probe};
use crate::route::{Access, Route, RouteView};
use crate::store::{task_views, user_views, Store, StoreView, Task, TaskId, TaskView, UserRecord, UserView};
use crate::task::{
    create_outcome, create_task, delete_outcome, delete_task, list_tasks, task_id_of, CreateTaskSchema,
};
use crate::text::opt_text;
use crate::user::{delete_user, delete_user_outcome, list_users};

verus! {

/// What a request is answered with.
#[derive(Debug, PartialEq, Eq)]
pub enum Reply {
    /// The health report, with status 200 whatever it says.
    Health(HealthReport),
    /// The task that was created, with status 201.
    Created(Task),
    /// The caller's tasks, with status 200.
    Tasks(Vec<Task>),
    /// The mirrored accounts, with status 200.
    Users(Vec<UserRecord>),
    /// Nothing: what was to be deleted is gone. Status 204.
    Deleted,
    /// A temporary redirect to the documentation pages. Status 307.
    Redirect,
    /// The request is for the API schema, the documentation pages or a
    /// static file, which are served by others.
    Delegated,
    /// The error, with the status that goes with its kind.
    Failed(ApiError),
}

pub enum ReplyView {
    Health(HealthReport),
    Created(TaskView),
    Tasks(Seq<TaskView>),
    Users(Seq<UserView>),
    Deleted,
    Redirect,
    Delegated,
    Failed(ApiError),
}

impl View for Reply {
    type V = ReplyView;

    open spec fn view(&self) -> ReplyView {
        match self {
            Reply::Health(report) => ReplyView::Health(*report),
            Reply::Created(task) => ReplyView::Created(task@),
            Reply::Tasks(tasks) => ReplyView::Tasks(task_views(tasks@)),
            Reply::Users(users) => ReplyView::Users(user_views(users@)),
            Reply::Deleted => ReplyView::Deleted,
            Reply::Redirect => ReplyView::Redirect,
            Reply::Delegated => ReplyView::Delegated,
            Reply::Failed(e) => ReplyView::Failed(*e),
        }
    }
}

impl ReplyView {
    /// The HTTP status of the answer, where the service itself gives it.
    pub open spec fn status_code(self) -> Option<u16> {
        match self {
            ReplyView::Health(report) => Some(report.http_status),
            ReplyView::Created(_) => Some(201u16),
            ReplyView::Tasks(_) => Some(200u16),
            ReplyView::Users(_) => Some(200u16),
            ReplyView::Deleted => Some(204u16),
            ReplyView::Redirect => Some(307u16),
            ReplyView::Delegated => None,
            ReplyView::Failed(e) => Some(e.status_code()),
        }
    }
}

impl Reply {
    pub fn status(&self) -> (code: Option<u16>)
        ensures
            code == self@.status_code(),
    {
        match self {
            Reply::Health(report) => Some(report.http_status),
            Reply::Created(_) => Some(201),
            Reply::Tasks(_) => Some(200),
            Reply::Users(_) => Some(200),
            Reply::Deleted => Some(204),
            Reply::Redirect => Some(307),
            Reply::Delegated => None,
            Reply::Failed(e) => Some(e.status()),
        }
    }
}

/// Where the redirect from `/docs` leads.
pub fn docs_location() -> (path: &'static str)
    ensures
        path@ == "/swagger-ui"@,
{
    "/swagger-ui"
}

/// What the body of a request to create a task holds.
pub open spec fn body_view(body: Option<CreateTaskSchema>) -> Option<(Seq<char>, Option<Seq<char>>)> {
    match body {
        Some(input) => Some((input.title@, opt_text(input.description))),
        None => None,
    }
}

/// What a caller holds, where there is one.
pub open spec fn caller_view(caller: Option<&AuthClaims>) -> Option<AuthClaimsView> {
    match caller {
        Some(claims) => Some(claims@),
        None => None,
    }
}

/// What stands between a caller and a route: nothing on an open route; on
/// a protected one, the lack of a verified caller; on an administrator's
/// route, also the lack of the administrator role.
pub open spec fn refusal(access: Access, caller: Option<AuthClaimsView>) -> Option<ApiError> {
    match access {
        Access::Open => None,
        Access::Authenticated => if caller is None {
            Some(ApiError::Unauthenticated)
        } else {
            None
        },
        Access::AdminOnly => if caller is None {
            Some(ApiError::Unauthenticated)
        } else if !caller->0.roles.contains(Role::Admin) {
            Some(ApiError::Forbidden)
        } else {
            None
        },
    }
}

/// The answer to a request and the store afterwards.
///
/// A request to create a task that carries no body has no title. A path
/// segment that is not a task identifier denotes no task.
pub open spec fn reply_of(
    store: StoreView,
    route: RouteView,
    caller: Option<AuthClaimsView>,
    body: Option<(Seq<char>, Option<Seq<char>>)>,
    probe: Probe,
    now: u64,
) -> (ReplyView, StoreView) {
    if refusal(route.access(), caller) is Some {
        (ReplyView::Failed(refusal(route.access(), caller)->0), store)
    } else {
        match route {
            RouteView::Health => (ReplyView::Health(health_of(probe)), store),
            RouteView::CreateTask => match body {
                None => (ReplyView::Failed(ApiError::Validation), store),
                Some((title, description)) => {
                    let outcome = create_outcome(store, caller->0.subject, title, description, now);
                    match outcome.0 {
                        Ok(task) => (ReplyView::Created(task), outcome.1),
                        Err(e) => (ReplyView::Failed(e), outcome.1),
                    }
                },
            },
            RouteView::ListTasks => (ReplyView::Tasks(store.tasks_of(caller->0.subject)), store),
            RouteView::DeleteTask(text) => match task_id_of(text) {
                None => (ReplyView::Failed(ApiError::NotFound), store),
                Some(id) => {
                    let outcome = delete_outcome(store, caller->0.subject, id);
                    match outcome.0 {
                        Ok(_) => (ReplyView::Deleted, outcome.1),
                        Err(e) => (ReplyView::Failed(e), outcome.1),
                    }
                },
            },
            RouteView::ListUsers => (ReplyView::Users(store.users), store),
            RouteView::DeleteUser(subject) => {
                let outcome = delete_user_outcome(store, subject);
                match outcome.0 {
                    Ok(_) => (ReplyView::Deleted, outcome.1),
                    Err(e) => (ReplyView::Failed(e), outcome.1),
                }
            },
            RouteView::DocsRedirect => (ReplyView::Redirect, store),
            RouteView::ApiSchema => (ReplyView::Delegated, store),
            RouteView::DocsUi => (ReplyView::Delegated, store),
            RouteView::StaticAsset => (ReplyView::Delegated, store),
        }
    }
}

/// Says what stands between the caller and a route, if anything does.
pub fn check_access(access: Access, caller: Option<&AuthClaims>) -> (refused: Option<ApiError>)
    ensures
        refused == refusal(access, caller_view(caller)),
{
    match access {
        Access::Open => None,
        Access::Authenticated => match caller {
            Some(_) => None,
            None => Some(ApiError::Unauthenticated),
        },
        Access::AdminOnly => match caller {
            Some(claims) => if claims.roles.contains(Role::Admin) {
                None
            } else {
                Some(ApiError::Forbidden)
            },
            None => Some(ApiError::Unauthenticated),
        },
    }
}

/// Answers a request: checks once more that the caller may use the route,
/// runs the route's handler on the store, and wraps what it gives.
pub fn respond(
    store: &mut Store,
    route: Route,
    caller: Option<&AuthClaims>,
    body: Option<CreateTaskSchema>,
    probe: Probe,
    now: u64,
) -> (reply: Reply)
    requires
        old(store).wf(),
        route is CreateTask ==> old(store)@.issued < u64::MAX,
    ensures
        final(store).wf(),
        reply@ == reply_of(old(store)@, route@, caller_view(caller), body_view(body), probe, now).0,
        final(store)@ == reply_of(old(store)@, route@, caller_view(caller), body_view(body), probe, now).1,
{
    if let Some(e) = check_access(route.access(), caller) {
        return Reply::Failed(e);
    }
    match route {
        Route::Health => Reply::Health(health(probe)),
        Route::CreateTask => match (caller, body) {
            (Some(claims), Some(input)) => match create_task(store, claims, input, now) {
                Ok(task) => Reply::Created(task),
                Err(e) => Reply::Failed(e),
            },
            (Some(_), None) => Reply::Failed(ApiError::Validation),
            (None, _) => Reply::Failed(ApiError::Unauthenticated),
        },
        Route::ListTasks => match caller {
            Some(claims) => Reply::Tasks(list_tasks(store, claims)),
            None => Reply::Failed(ApiError::Unauthenticated),
        },
        Route::DeleteTask(text) => match caller {
            Some(claims) => match TaskId::parse(text.as_str()) {
                Some(id) => match delete_task(store, claims, id) {
                    Ok(_) => Reply::Deleted,
                    Err(e) => Reply::Failed(e),
                },
                None => Reply::Failed(ApiError::NotFound),
            },
            None => Reply::Failed(ApiError::Unauthenticated),
        },
        Route::ListUsers => Reply::Users(list_users(store)),
        Route::DeleteUser(subject) => match delete_user(store, subject.as_str()) {
            Ok(_) => Reply::Deleted,
            Err(e) => Reply::Failed(e),
        },
        Route::DocsRedirect => Reply::Redirect,
        Route::ApiSchema => Reply::Delegated,
        Route::DocsUi => Reply::Delegated,
        Route::StaticAsset => Reply::Delegated,
    }
}

/// A request that is answered with an error leaves the store as it was.
pub proof fn lemma_failed_requests_change_nothing(
    store: StoreView,
    route: RouteView,
    caller: Option<AuthClaimsView>,
    body: Option<(Seq<char>, Option<Seq<char>>)>,
    probe: Probe,
    now: u64,
)
    requires
        reply_of(store, route, caller, body, probe, now).0 is Failed,
    ensures
        reply_of(store, route, caller, body, probe, now).1 == store,
{
}

/// No handler of a protected route runs without a verified caller, and no
/// handler of an administrator's route without the administrator role:
/// such a request is answered with the error, and the store is as it was.
pub proof fn lemma_handlers_are_guarded(
    store: StoreView,
    route: RouteView,
    caller: Option<AuthClaimsView>,
    body: Option<(Seq<char>, Option<Seq<char>>)>,
    probe: Probe,
    now: u64,
)
    requires
        route.access() != Access::Open,
    ensures
        caller is None ==> reply_of(store, route, caller, body, probe, now) == (
            ReplyView::Failed(ApiError::Unauthenticated),
            store,
        ),
        caller is Some && route.access() == Access::AdminOnly && !caller->0.roles.contains(Role::Admin) ==> reply_of(
            store,
            route,
            caller,
            body,
            probe,
            now,
        ) == (ReplyView::Failed(ApiError::Forbidden), store),
{
}

/// The health check and the pages served by others never touch the store
/// and never fail, whoever asks.
pub proof fn lemma_open_routes_leave_the_store(
    store: StoreView,
    route: RouteView,
    caller: Option<AuthClaimsView>,
    body: Option<(Seq<char>, Option<Seq<char>>)>,
    probe: Probe,
    now: u64,
)
    requires
        route.access() == Access::Open,
    ensures
        reply_of(store, route, caller, body, probe, now).1 == store,
        !(reply_of(store, route, caller, body, probe, now).0 is Failed),
        route is Health ==> reply_of(store, route, caller, body, probe, now).0.status_code() == Some(200u16),
{
}

} // verus!
