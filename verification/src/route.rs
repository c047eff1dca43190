//! The HTTP surface: which handler a method and a path lead to, and what a
//! caller must show to be let through to it.

use vstd::prelude::*;
use vstd::string::StrSliceExecFns;
use crate::text::{begins_with, chars_of, matches_text, occurs_from};

verus! {

/// The request methods that the service tells apart.
#[derive(Clone, Copy, Debug, PartialEq, Eq, Structural)]
pub enum Method {
    Get,
    Post,
    Delete,
    /// Any other method; no route of the service answers to it.
    Other,
}

/// What a caller must show before a route's handler runs.
#[derive(Clone, Copy, Debug, PartialEq, Eq, Structural)]
pub enum Access {
    /// Nothing: the request is not looked at for a token.
    Open,
    /// A verified bearer token, whatever roles it carries.
    Authenticated,
    /// A verified bearer token that carries the administrator role.
    AdminOnly,
}

/// Where a request goes.
#[derive(Clone, Debug, PartialEq, Eq)]
pub enum Route {
    /// `GET /health`
    Health,
    /// `POST /tasks`
    CreateTask,
    /// `GET /tasks`
    ListTasks,
    /// `DELETE /tasks/{id}`, with the identifier as it stands in the path.
    DeleteTask(String),
    /// `GET /users`
    ListUsers,
    /// `DELETE /users/{id}`, with the subject identifier as it stands in the path.
    DeleteUser(String),
    /// `GET /api-docs/openapi.json`
    ApiSchema,
    /// `GET /swagger-ui` and everything below it.
    DocsUi,
    /// `GET /docs`, which redirects to the documentation pages.
    DocsRedirect,
    /// Everything else: left to the static files.
    StaticAsset,
}

pub enum RouteView {
    Health,
    CreateTask,
    ListTasks,
    DeleteTask(Seq<char>),
    ListUsers,
    DeleteUser(Seq<char>),
    ApiSchema,
    DocsUi,
    DocsRedirect,
    StaticAsset,
}

impl View for Route {
    type V = RouteView;

    open spec fn view(&self) -> RouteView {
        match self {
            Route::Health => RouteView::Health,
            Route::CreateTask => RouteView::CreateTask,
            Route::ListTasks => RouteView::ListTasks,
            Route::DeleteTask(id) => RouteView::DeleteTask(id@),
            Route::ListUsers => RouteView::ListUsers,
            Route::DeleteUser(id) => RouteView::DeleteUser(id@),
            Route::ApiSchema => RouteView::ApiSchema,
            Route::DocsUi => RouteView::DocsUi,
            Route::DocsRedirect => RouteView::DocsRedirect,
            Route::StaticAsset => RouteView::StaticAsset,
        }
    }
}

impl RouteView {
    /// Task routes ask for any verified caller, user routes for an
    /// administrator, and the rest for nothing.
    pub open spec fn access(self) -> Access {
        match self {
            RouteView::CreateTask | RouteView::ListTasks | RouteView::DeleteTask(_) => Access::Authenticated,
            RouteView::ListUsers | RouteView::DeleteUser(_) => Access::AdminOnly,
            _ => Access::Open,
        }
    }
}

/// The single path segment that follows `prefix` in `path`: what is left of
/// the path after the prefix, where that is not empty and holds no slash.
pub open spec fn item_of(prefix: Seq<char>, path: Seq<char>) -> Option<Seq<char>> {
    let rest = path.skip(prefix.len() as int);
    if prefix.is_prefix_of(path) && rest.len() > 0 && !rest.contains('/') {
        Some(rest)
    } else {
        None
    }
}

/// The route of a request, by its method and the path of its URL (without
/// the query). Paths are compared as they stand: a trailing slash makes
/// another path.
pub open spec fn resolved(method: Method, path: Seq<char>) -> RouteView {
    if method == Method::Get && path == "/health"@ {
        RouteView::Health
    } else if method == Method::Post && path == "/tasks"@ {
        RouteView::CreateTask
    } else if method == Method::Get && path == "/tasks"@ {
        RouteView::ListTasks
    } else if method == Method::Delete && item_of("/tasks/"@, path) is Some {
        RouteView::DeleteTask(item_of("/tasks/"@, path)->0)
    } else if method == Method::Get && path == "/users"@ {
        RouteView::ListUsers
    } else if method == Method::Delete && item_of("/users/"@, path) is Some {
        RouteView::DeleteUser(item_of("/users/"@, path)->0)
    } else if method == Method::Get && path == "/api-docs/openapi.json"@ {
        RouteView::ApiSchema
    } else if method == Method::Get && (path == "/swagger-ui"@ || "/swagger-ui/"@.is_prefix_of(path)) {
        RouteView::DocsUi
    } else if method == Method::Get && path == "/docs"@ {
        RouteView::DocsRedirect
    } else {
        RouteView::StaticAsset
    }
}

/// Picks the path segment after `prefix`, if the path has that shape.
fn item_after(path: &str, chars: &Vec<char>, prefix: &str) -> (item: Option<String>)
    requires
        chars@ == path@,
    ensures
        match item_of(prefix@, path@) {
            Some(rest) => item is Some && item->0@ == rest,
            None => item is None,
        },
{
    if !begins_with(chars, prefix) {
        return None;
    }
    let start: usize = prefix.unicode_len();
    if chars.len() <= start || occurs_from(chars, start, '/') {
        return None;
    }
    let rest = path.substring_char(start, chars.len());
    assert(path@.subrange(start as int, chars.len() as int) == path@.skip(start as int));
    Some(rest.to_owned())
}

/// Finds the route of a request.
pub fn resolve(method: Method, path: &str) -> (route: Route)
    ensures
        route@ == resolved(method, path@),
{
    let chars = chars_of(path);
    match method {
        Method::Get => {
            if matches_text(&chars, "/health") {
                Route::Health
            } else if matches_text(&chars, "/tasks") {
                Route::ListTasks
            } else if matches_text(&chars, "/users") {
                Route::ListUsers
            } else if matches_text(&chars, "/api-docs/openapi.json") {
                Route::ApiSchema
            } else if matches_text(&chars, "/swagger-ui") || begins_with(&chars, "/swagger-ui/") {
                Route::DocsUi
            } else if matches_text(&chars, "/docs") {
                Route::DocsRedirect
            } else {
                Route::StaticAsset
            }
        },
        Method::Post => {
            if matches_text(&chars, "/tasks") {
                Route::CreateTask
            } else {
                Route::StaticAsset
            }
        },
        Method::Delete => {
            match item_after(path, &chars, "/tasks/") {
                Some(id) => Route::DeleteTask(id),
                None => match item_after(path, &chars, "/users/") {
                    Some(id) => Route::DeleteUser(id),
                    None => Route::StaticAsset,
                },
            }
        },
        Method::Other => Route::StaticAsset,
    }
}

impl Route {
    /// What the route asks of its callers.
    pub fn access(&self) -> (access: Access)
        ensures
            access == self@.access(),
    {
        match self {
            Route::CreateTask | Route::ListTasks | Route::DeleteTask(_) => Access::Authenticated,
            Route::ListUsers | Route::DeleteUser(_) => Access::AdminOnly,
            _ => Access::Open,
        }
    }
}

/// No method but `GET`, `POST` and `DELETE` reaches a protected handler, and
/// no protected handler is reached by a path outside `/tasks` and `/users`.
pub proof fn lemma_protected_paths(method: Method, path: Seq<char>)
    requires
        resolved(method, path).access() != Access::Open,
    ensures
        method != Method::Other,
        path == "/tasks"@ || path == "/users"@ || "/tasks/"@.is_prefix_of(path) || "/users/"@.is_prefix_of(path),
{
}

} // verus!
