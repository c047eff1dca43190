//! The user handlers. Both are for administrators: the middleware lets nobody
//! else through to them.

use vstd::prelude::*;
use crate::auth::AuthClaims;
use crate::error::ApiError;
use crate::store::{
    lemma_filter_commutes, lemma_filter_positions, not_owned_by, not_subject, owned_by, user_views, Store, StoreView,
    UserRecord, UserView,
};

verus! {

/// The record that mirrors a caller's account.
pub open spec fn record_of(caller: crate::auth::AuthClaimsView) -> UserView {
    UserView { subject: caller.subject, display_name: caller.display_name, email: caller.email }
}

/// Deleting a user: what the administrator is told, and the store
/// afterwards. The record goes, and with it every task of that subject. A
/// subject without a record is not found, and nothing changes.
pub open spec fn delete_user_outcome(store: StoreView, subject: Seq<char>) -> (Result<(), ApiError>, StoreView) {
    match removal_answer(store.knows(subject)) {
        Ok(_) => (Ok(()), store.without_user(subject).without_tasks_of(subject)),
        Err(e) => (Err(e), store),
    }
}

/// What an administrator who asks to delete a user is told, by whether a
/// record of the subject was there to remove.
pub open spec fn removal_answer(removed: bool) -> Result<(), ApiError> {
    if removed {
        Ok(())
    } else {
        Err(ApiError::NotFound)
    }
}

/// Says what to answer once the removal of a user's record was tried.
pub fn answer_removal(removed: bool) -> (outcome: Result<(), ApiError>)
    ensures
        outcome == removal_answer(removed),
{
    if removed {
        Ok(())
    } else {
        Err(ApiError::NotFound)
    }
}

/// Records the caller's account as the identity provider describes it, or
/// brings the caller's record up to date.
pub fn mirror_user(store: &mut Store, caller: &AuthClaims)
    requires
        old(store).wf(),
    ensures
        final(store).wf(),
        final(store)@ == old(store)@.with_user(record_of(caller@)),
{
    store.put_user(
        UserRecord {
            subject: caller.subject.clone(),
            display_name: caller.display_name.clone(),
            email: caller.email.clone(),
        },
    );
}

/// Lists every mirrored account, in the order in which they were first seen.
pub fn list_users(store: &Store) -> (users: Vec<UserRecord>)
    ensures
        user_views(users@) == store@.users,
{
    store.users()
}

/// Deletes the record of a subject and, with it, the subject's tasks.
pub fn delete_user(store: &mut Store, subject: &str) -> (outcome: Result<(), ApiError>)
    requires
        old(store).wf(),
    ensures
        final(store).wf(),
        outcome == delete_user_outcome(old(store)@, subject@).0,
        final(store)@ == delete_user_outcome(old(store)@, subject@).1,
{
    let subject = subject.to_owned();
    match answer_removal(store.remove_user(&subject)) {
        Ok(_) => {
            store.remove_tasks_of(&subject);
            Ok(())
        },
        Err(e) => Err(e),
    }
}

/// Deleting a user takes the user's tasks along and nobody else's: the
/// user's list is empty afterwards, every other list is what it was, and
/// the record is gone while the other records stay in their order.
pub proof fn lemma_delete_user_cascades(store: StoreView, subject: Seq<char>, other: Seq<char>)
    requires
        store.wf(),
        store.knows(subject),
        other != subject,
    ensures
        delete_user_outcome(store, subject).0 == Ok::<(), ApiError>(()),
        delete_user_outcome(store, subject).1.tasks_of(subject).len() == 0,
        delete_user_outcome(store, subject).1.tasks_of(other) == store.tasks_of(other),
        !delete_user_outcome(store, subject).1.knows(subject),
        delete_user_outcome(store, subject).1.users == store.users.filter(not_subject(subject)),
{
    let after = delete_user_outcome(store, subject).1;
    let kept = store.tasks.filter(not_owned_by(subject));
    let at = lemma_filter_positions(store.tasks, not_owned_by(subject));
    // none of the tasks that stay is the subject's
    let mine = kept.filter(owned_by(subject));
    let mine_at = lemma_filter_positions(kept, owned_by(subject));
    if mine.len() > 0 {
        assert(kept[mine_at[0]] == store.tasks[at[mine_at[0]]]);
    }
    // the tasks of anybody else all stay
    lemma_filter_commutes(store.tasks, not_owned_by(subject), owned_by(other));
    let theirs = store.tasks.filter(owned_by(other));
    let theirs_at = lemma_filter_positions(store.tasks, owned_by(other));
    assert forall|k: int| 0 <= k < theirs.len() implies not_owned_by(subject)(#[trigger] theirs[k]) by {
        assert(theirs[k] == store.tasks[theirs_at[k]]);
    }
    crate::store::lemma_filter_keeps_all(theirs, not_owned_by(subject));
    // the record is gone
    let users_at = lemma_filter_positions(store.users, not_subject(subject));
    if after.knows(subject) {
        let k = choose|k: int| 0 <= k < after.users.len() && (#[trigger] after.users[k]).subject == subject;
        assert(after.users[k] == store.users[users_at[k]]);
    }
}

/// Deleting a user that has no record changes nothing.
pub proof fn lemma_delete_unknown_user(store: StoreView, subject: Seq<char>)
    requires
        !store.knows(subject),
    ensures
        delete_user_outcome(store, subject) == (Err::<(), ApiError>(ApiError::NotFound), store),
{
}

} // verus!
