use task_api::auth::{AuthClaims, RoleSet};
use task_api::error::ApiError;
use task_api::store::{Store, UserRecord};
use task_api::task::{create_task, list_tasks, CreateTaskSchema};
use task_api::user::{delete_user, list_users, mirror_user};

fn claims(subject: &str, name: Option<&str>) -> AuthClaims {
    AuthClaims {
        subject: subject.to_string(),
        roles: RoleSet { user: true, admin: false },
        display_name: name.map(|n| n.to_string()),
        email: Some(format!("{}@example.org", subject)),
    }
}

fn record(subject: &str, name: Option<&str>) -> UserRecord {
    UserRecord {
        subject: subject.to_string(),
        display_name: name.map(|n| n.to_string()),
        email: Some(format!("{}@example.org", subject)),
    }
}

fn titled(title: &str) -> CreateTaskSchema {
    CreateTaskSchema { title: title.to_string(), description: None }
}

#[test]
fn users_are_listed_in_the_order_first_seen() {
    let mut store = Store::new();
    assert_eq!(list_users(&store), Vec::<UserRecord>::new());
    mirror_user(&mut store, &claims("alice", Some("Alice")));
    mirror_user(&mut store, &claims("bob", None));
    mirror_user(&mut store, &claims("carol", Some("Carol")));
    assert_eq!(
        list_users(&store),
        vec![record("alice", Some("Alice")), record("bob", None), record("carol", Some("Carol"))]
    );
    assert_eq!(store.user_count(), 3);
}

#[test]
fn mirroring_again_updates_in_place() {
    let mut store = Store::new();
    mirror_user(&mut store, &claims("alice", Some("Alice")));
    mirror_user(&mut store, &claims("bob", None));
    mirror_user(&mut store, &claims("alice", Some("Alice L.")));
    assert_eq!(list_users(&store), vec![record("alice", Some("Alice L.")), record("bob", None)]);
}

#[test]
fn put_user_replaces_the_record_of_the_subject() {
    let mut store = Store::new();
    store.put_user(record("alice", None));
    store.put_user(UserRecord { subject: "alice".to_string(), display_name: Some("A".to_string()), email: None });
    assert_eq!(
        list_users(&store),
        vec![UserRecord { subject: "alice".to_string(), display_name: Some("A".to_string()), email: None }]
    );
}

#[test]
fn deleting_a_user_cascades_to_their_tasks() {
    let mut store = Store::new();
    let alice = claims("alice", None);
    let bob = claims("bob", None);
    mirror_user(&mut store, &alice);
    mirror_user(&mut store, &bob);
    create_task(&mut store, &alice, titled("a1"), 1).unwrap();
    let b1 = create_task(&mut store, &bob, titled("b1"), 2).unwrap();
    create_task(&mut store, &alice, titled("a2"), 3).unwrap();
    let b2 = create_task(&mut store, &bob, titled("b2"), 4).unwrap();
    create_task(&mut store, &alice, titled("a3"), 5).unwrap();
    assert_eq!(delete_user(&mut store, "alice"), Ok(()));
    assert_eq!(list_users(&store), vec![record("bob", None)]);
    assert_eq!(list_tasks(&store, &alice).len(), 0);
    assert_eq!(list_tasks(&store, &bob), vec![b1, b2]);
    assert_eq!(store.task_count(), 2);
    assert_eq!(store.issued(), 5);
}

#[test]
fn deleting_an_unknown_user_is_not_found() {
    let mut store = Store::new();
    let alice = claims("alice", None);
    mirror_user(&mut store, &alice);
    create_task(&mut store, &claims("ghost", None), titled("g"), 1).unwrap();
    assert_eq!(delete_user(&mut store, "ghost"), Err(ApiError::NotFound));
    assert_eq!(store.task_count(), 1);
    assert_eq!(store.user_count(), 1);
    assert_eq!(delete_user(&mut store, ""), Err(ApiError::NotFound));
}

#[test]
fn deleting_a_user_twice_is_not_found_the_second_time() {
    let mut store = Store::new();
    mirror_user(&mut store, &claims("alice", None));
    assert_eq!(delete_user(&mut store, "alice"), Ok(()));
    assert_eq!(delete_user(&mut store, "alice"), Err(ApiError::NotFound));
    assert_eq!(store.user_count(), 0);
}

#[test]
fn store_removals_report_what_they_did() {
    let mut store = Store::new();
    let alice = claims("alice", None);
    mirror_user(&mut store, &alice);
    let task = create_task(&mut store, &alice, titled("t"), 1).unwrap();
    assert!(!store.remove_user(&"bob".to_string()));
    assert!(store.remove_user(&"alice".to_string()));
    assert_eq!(store.task_count(), 1);
    assert!(store.remove_task(task.id));
    assert!(!store.remove_task(task.id));
    assert_eq!(store.tasks_owned_by(&"alice".to_string()).len(), 0);
    assert_eq!(store.users().len(), 0);
}

#[test]
fn user_record_clone_is_equal() {
    let r = record("alice", Some("A"));
    assert_eq!(r.clone(), r);
}
