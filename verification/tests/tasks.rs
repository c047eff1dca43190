use task_api::auth::{AuthClaims, RoleSet};
use task_api::error::ApiError;
use task_api::store::{Store, Task, TaskId};
use task_api::task::{create_task, delete_task, list_tasks, ownership, CreateTaskSchema, Ownership};

fn caller(subject: &str) -> AuthClaims {
    AuthClaims { subject: subject.to_string(), roles: RoleSet { user: true, admin: false }, display_name: None, email: None }
}

fn admin(subject: &str) -> AuthClaims {
    AuthClaims { subject: subject.to_string(), roles: RoleSet { user: true, admin: true }, display_name: None, email: None }
}

fn new_task(title: &str) -> CreateTaskSchema {
    CreateTaskSchema { title: title.to_string(), description: None }
}

#[test]
fn created_task_belongs_to_the_caller() {
    let mut store = Store::new();
    let input = CreateTaskSchema { title: "write report".to_string(), description: Some("by friday".to_string()) };
    let task = create_task(&mut store, &caller("alice"), input, 1_700_000_000).unwrap();
    assert_eq!(
        task,
        Task {
            id: TaskId(0),
            owner: "alice".to_string(),
            title: "write report".to_string(),
            description: Some("by friday".to_string()),
            completed: false,
            created_at: 1_700_000_000,
        }
    );
    assert_eq!(store.task_count(), 1);
    assert_eq!(store.issued(), 1);
    assert_eq!(store.task(TaskId(0)), Some(&task));
    assert_eq!(store.task(TaskId(1)), None);
}

#[test]
fn title_is_kept_as_given() {
    let mut store = Store::new();
    let task = create_task(&mut store, &caller("alice"), new_task("  padded  "), 0).unwrap();
    assert_eq!(task.title, "  padded  ");
}

#[test]
fn listing_returns_own_tasks_in_creation_order() {
    let mut store = Store::new();
    let alice = caller("alice");
    let bob = caller("bob");
    let a1 = create_task(&mut store, &alice, new_task("a1"), 1).unwrap();
    let b1 = create_task(&mut store, &bob, new_task("b1"), 2).unwrap();
    let a2 = create_task(&mut store, &alice, new_task("a2"), 3).unwrap();
    let b2 = create_task(&mut store, &bob, new_task("b2"), 4).unwrap();
    let a3 = create_task(&mut store, &alice, new_task("a3"), 5).unwrap();
    assert_eq!(list_tasks(&store, &alice), vec![a1, a2, a3]);
    assert_eq!(list_tasks(&store, &bob), vec![b1, b2]);
    assert_eq!(list_tasks(&store, &caller("carol")), Vec::<Task>::new());
}

#[test]
fn admins_list_only_their_own_tasks() {
    let mut store = Store::new();
    create_task(&mut store, &caller("alice"), new_task("a"), 1).unwrap();
    let root = admin("root");
    assert_eq!(list_tasks(&store, &root), Vec::<Task>::new());
    let mine = create_task(&mut store, &root, new_task("r"), 2).unwrap();
    assert_eq!(list_tasks(&store, &root), vec![mine]);
}

#[test]
fn blank_title_is_rejected_and_creates_nothing() {
    let mut store = Store::new();
    let alice = caller("alice");
    create_task(&mut store, &alice, new_task("kept"), 1).unwrap();
    for title in ["", " ", "\t\n", "   \u{00A0}  "] {
        let before = list_tasks(&store, &alice).len();
        assert_eq!(create_task(&mut store, &alice, new_task(title), 2), Err(ApiError::Validation));
        assert_eq!(list_tasks(&store, &alice).len(), before);
        assert_eq!(store.task_count(), 1);
        assert_eq!(store.issued(), 1);
    }
}

#[test]
fn deleting_anothers_task_looks_like_a_missing_task() {
    let mut store = Store::new();
    let alice = caller("alice");
    let bob = caller("bob");
    let task_123 = create_task(&mut store, &bob, new_task("bob's"), 1).unwrap();
    let foreign = delete_task(&mut store, &alice, task_123.id);
    let missing = delete_task(&mut store, &alice, TaskId(987_654));
    assert_eq!(foreign, Err(ApiError::NotFound));
    assert_eq!(foreign, missing);
    assert_eq!(foreign.unwrap_err().status(), missing.unwrap_err().status());
    assert_eq!(foreign.unwrap_err().kind(), missing.unwrap_err().kind());
    assert_eq!(foreign.unwrap_err().message(), missing.unwrap_err().message());
    assert_eq!(list_tasks(&store, &bob), vec![task_123]);
}

#[test]
fn ownership_is_told_apart_inside() {
    let mut store = Store::new();
    let alice = caller("alice");
    let bob = caller("bob");
    let task = create_task(&mut store, &bob, new_task("b"), 1).unwrap();
    assert_eq!(ownership(&store, &bob, task.id), Ownership::Owned);
    assert_eq!(ownership(&store, &alice, task.id), Ownership::Foreign);
    assert_eq!(ownership(&store, &alice, TaskId(55)), Ownership::Absent);
}

#[test]
fn admin_cannot_delete_anothers_task() {
    let mut store = Store::new();
    let task = create_task(&mut store, &caller("alice"), new_task("a"), 1).unwrap();
    assert_eq!(delete_task(&mut store, &admin("root"), task.id), Err(ApiError::NotFound));
    assert_eq!(store.task_count(), 1);
}

#[test]
fn deleting_twice_succeeds_then_is_not_found() {
    let mut store = Store::new();
    let alice = caller("alice");
    let keep = create_task(&mut store, &alice, new_task("keep"), 1).unwrap();
    let gone = create_task(&mut store, &alice, new_task("gone"), 2).unwrap();
    let other = create_task(&mut store, &caller("bob"), new_task("other"), 3).unwrap();
    assert_eq!(delete_task(&mut store, &alice, gone.id), Ok(()));
    assert_eq!(store.task_count(), 2);
    assert_eq!(delete_task(&mut store, &alice, gone.id), Err(ApiError::NotFound));
    assert_eq!(store.task_count(), 2);
    assert_eq!(store.issued(), 3);
    assert_eq!(list_tasks(&store, &alice), vec![keep]);
    assert_eq!(list_tasks(&store, &caller("bob")), vec![other]);
}

#[test]
fn deleted_identifiers_are_not_reused() {
    let mut store = Store::new();
    let alice = caller("alice");
    let first = create_task(&mut store, &alice, new_task("one"), 1).unwrap();
    delete_task(&mut store, &alice, first.id).unwrap();
    let second = create_task(&mut store, &alice, new_task("two"), 2).unwrap();
    assert_ne!(first.id, second.id);
    assert_eq!(second.id, TaskId(1));
}

#[test]
fn hundred_creates_get_hundred_distinct_ids() {
    let mut store = Store::new();
    let alice = caller("alice");
    let mut ids = Vec::new();
    for n in 0..100 {
        let task = create_task(&mut store, &alice, new_task(&format!("task {}", n)), n).unwrap();
        assert!(!ids.contains(&task.id));
        ids.push(task.id);
    }
    assert_eq!(ids.len(), 100);
    let listed = list_tasks(&store, &alice);
    assert_eq!(listed.len(), 100);
    for (n, task) in listed.iter().enumerate() {
        assert_eq!(task.title, format!("task {}", n));
        assert_eq!(task.id, ids[n]);
    }
}

#[test]
fn task_identifiers_are_read_from_paths() {
    assert_eq!(TaskId::parse("0"), Some(TaskId(0)));
    assert_eq!(TaskId::parse("123"), Some(TaskId(123)));
    assert_eq!(TaskId::parse("18446744073709551615"), Some(TaskId(u64::MAX)));
    assert_eq!(TaskId::parse("18446744073709551616"), None);
    assert_eq!(TaskId::parse("does-not-exist"), None);
    assert_eq!(TaskId::parse("task-123"), None);
    assert_eq!(TaskId::parse(""), None);
    assert_eq!(TaskId::parse("-1"), None);
}

#[test]
fn task_clone_is_equal() {
    let mut store = Store::new();
    let task = create_task(&mut store, &caller("alice"), new_task("t"), 9).unwrap();
    assert_eq!(task.clone(), task);
}
