//! The task handlers: create, list and delete, each on behalf of one
//! verified caller and within that caller's own tasks.

use vstd::prelude::*;
use crate::auth::AuthClaims;
use crate::error::ApiError;
use crate::store::{
    lemma_fewer_tasks_keep_wf, lemma_filter_commutes, lemma_filter_keeps_all, lemma_filter_positions, other_than,
    owned_by, task_views, Store, StoreView, Task, TaskId, TaskView,
};
use crate::text::{blank, is_blank, opt_text, parse_decimal, decimal_value, is_decimal};

verus! {

/// What a caller sends to create a task.
#[derive(Debug, PartialEq, Eq)]
pub struct CreateTaskSchema {
    pub title: String,
    pub description: Option<String>,
}

/// How a task stands to a caller. The difference between the last two is
/// for the service's eyes only: a caller is told the same in both cases.
#[derive(Clone, Copy, Debug, PartialEq, Eq, Structural)]
pub enum Ownership {
    /// The task exists and is the caller's.
    Owned,
    /// The task exists and is somebody else's.
    Foreign,
    /// There is no such task.
    Absent,
}

/// The identifier that a text denotes: a decimal number of at most 64 bits.
pub open spec fn task_id_of(text: Seq<char>) -> Option<TaskId> {
    if is_decimal(text) && decimal_value(text) <= u64::MAX {
        Some(TaskId(decimal_value(text) as u64))
    } else {
        None
    }
}

/// Creating a task: what the caller is told, and the store afterwards. A
/// title that is empty once trimmed is refused and leaves the store as it
/// was; any other title makes a task of the caller's, not completed, under
/// an identifier that the store picks.
pub open spec fn create_outcome(
    store: StoreView,
    caller: Seq<char>,
    title: Seq<char>,
    description: Option<Seq<char>>,
    now: u64,
) -> (Result<TaskView, ApiError>, StoreView) {
    match title_verdict(title) {
        Err(e) => (Err(e), store),
        Ok(_) => (
            Ok(store.next_task(caller, title, description, now)),
            store.with_task(caller, title, description, now),
        ),
    }
}

/// Whether a title is acceptable: it must not be empty once trimmed.
pub open spec fn title_verdict(title: Seq<char>) -> Result<(), ApiError> {
    if is_blank(title) {
        Err(ApiError::Validation)
    } else {
        Ok(())
    }
}

/// How a task stands to a caller, by the owner that the stored task names;
/// `None` where no task is stored under the identifier.
pub open spec fn standing(owner: Option<Seq<char>>, caller: Seq<char>) -> Ownership {
    match owner {
        Some(subject) => if subject == caller {
            Ownership::Owned
        } else {
            Ownership::Foreign
        },
        None => Ownership::Absent,
    }
}

/// How the task of the given identifier stands to the caller.
pub open spec fn ownership_of(store: StoreView, caller: Seq<char>, id: TaskId) -> Ownership {
    if store.owns(caller, id) {
        Ownership::Owned
    } else if store.holds_task(id) {
        Ownership::Foreign
    } else {
        Ownership::Absent
    }
}

/// Deleting a task: what the caller is told, and the store afterwards. The
/// caller's own task goes for good. A task of somebody else and a task that
/// does not exist get the same answer, and nothing changes.
pub open spec fn delete_outcome(store: StoreView, caller: Seq<char>, id: TaskId) -> (Result<(), ApiError>, StoreView) {
    match ownership_of(store, caller, id).answer() {
        Ok(_) => (Ok(()), store.without_task(id)),
        Err(e) => (Err(e), store),
    }
}

impl Ownership {
    /// What a caller who asks to delete the task is told. A task of
    /// somebody else is answered like a task that does not exist.
    pub open spec fn answer(self) -> Result<(), ApiError> {
        match self {
            Ownership::Owned => Ok(()),
            Ownership::Foreign => Err(ApiError::NotFound),
            Ownership::Absent => Err(ApiError::NotFound),
        }
    }

    /// Whether the caller may delete the task, and what to say if not.
    pub fn permits_delete(self) -> (outcome: Result<(), ApiError>)
        ensures
            outcome == self.answer(),
    {
        match self {
            Ownership::Owned => Ok(()),
            Ownership::Foreign => Err(ApiError::NotFound),
            Ownership::Absent => Err(ApiError::NotFound),
        }
    }
}

/// What the owner of a stored task holds, as characters.
pub open spec fn owner_text(owner: Option<&String>) -> Option<Seq<char>> {
    match owner {
        Some(subject) => Some(subject@),
        None => None,
    }
}

/// Checks the title of a task that is to be created.
pub fn validate_title(title: &str) -> (outcome: Result<(), ApiError>)
    ensures
        outcome == title_verdict(title@),
{
    if blank(title) {
        Err(ApiError::Validation)
    } else {
        Ok(())
    }
}

/// Says how a task stands to the caller, given the owner that the stored
/// task names, or `None` where nothing is stored under the identifier.
pub fn judge(owner: Option<&String>, caller: &AuthClaims) -> (found: Ownership)
    ensures
        found == standing(owner_text(owner), caller@.subject),
{
    match owner {
        Some(subject) => if *subject == caller.subject {
            Ownership::Owned
        } else {
            Ownership::Foreign
        },
        None => Ownership::Absent,
    }
}

impl TaskId {
    /// Reads a task identifier as it stands in a path. A text that is not
    /// an identifier denotes no task.
    pub fn parse(text: &str) -> (id: Option<TaskId>)
        ensures
            id == task_id_of(text@),
    {
        match parse_decimal(text, u64::MAX) {
            Some(number) => Some(TaskId(number)),
            None => None,
        }
    }
}

/// Creates a task for the caller.
pub fn create_task(store: &mut Store, caller: &AuthClaims, input: CreateTaskSchema, now: u64) -> (outcome: Result<
    Task,
    ApiError,
>)
    requires
        old(store).wf(),
        old(store)@.issued < u64::MAX,
    ensures
        final(store).wf(),
        final(store)@ == create_outcome(
            old(store)@,
            caller@.subject,
            input.title@,
            opt_text(input.description),
            now,
        ).1,
        match create_outcome(old(store)@, caller@.subject, input.title@, opt_text(input.description), now).0 {
            Ok(task) => outcome is Ok && outcome->Ok_0@ == task,
            Err(e) => outcome == Err::<Task, ApiError>(e),
        },
{
    match validate_title(input.title.as_str()) {
        Err(e) => Err(e),
        Ok(_) => Ok(store.insert_task(caller.subject.clone(), input.title, input.description, now)),
    }
}

/// Lists the caller's own tasks, oldest first. An administrator gets no
/// more than anybody else: their own.
pub fn list_tasks(store: &Store, caller: &AuthClaims) -> (tasks: Vec<Task>)
    ensures
        task_views(tasks@) == store@.tasks_of(caller@.subject),
{
    store.tasks_owned_by(&caller.subject)
}

/// Says how the task of the given identifier stands to the caller.
pub fn ownership(store: &Store, caller: &AuthClaims, id: TaskId) -> (found: Ownership)
    requires
        store.wf(),
    ensures
        found == ownership_of(store@, caller@.subject, id),
{
    proof {
        lemma_owner_of_held_task(store@, caller@.subject, id);
    }
    match store.task(id) {
        Some(task) => judge(Some(&task.owner), caller),
        None => judge(None, caller),
    }
}

/// Deletes a task of the caller's.
pub fn delete_task(store: &mut Store, caller: &AuthClaims, id: TaskId) -> (outcome: Result<(), ApiError>)
    requires
        old(store).wf(),
    ensures
        final(store).wf(),
        outcome == delete_outcome(old(store)@, caller@.subject, id).0,
        final(store)@ == delete_outcome(old(store)@, caller@.subject, id).1,
{
    match ownership(store, caller, id).permits_delete() {
        Ok(_) => {
            store.remove_task(id);
            Ok(())
        },
        Err(e) => Err(e),
    }
}

/// In a well-formed store a task is owned by a subject exactly when the
/// one task of that identifier names the subject as its owner.
pub proof fn lemma_owner_of_held_task(store: StoreView, subject: Seq<char>, id: TaskId)
    requires
        store.wf(),
    ensures
        store.owns(subject, id) <==> store.task(id) is Some && store.task(id)->0.owner == subject,
        store.holds_task(id) <==> store.task(id) is Some,
        ownership_of(store, subject, id) == standing(
            match store.task(id) {
                Some(task) => Some(task.owner),
                None => None,
            },
            subject,
        ),
{
    if store.holds_task(id) {
        let chosen = choose|i: int| 0 <= i < store.tasks.len() && (#[trigger] store.tasks[i]).id == id;
        if store.owns(subject, id) {
            let at = choose|i: int|
                0 <= i < store.tasks.len() && (#[trigger] store.tasks[i]).id == id && store.tasks[i].owner == subject;
            if at < chosen {
                assert(store.tasks[at].id.0 < store.tasks[chosen].id.0);
            } else if chosen < at {
                assert(store.tasks[chosen].id.0 < store.tasks[at].id.0);
            }
        }
    }
}

/// No two tasks of a well-formed store share an identifier.
pub proof fn lemma_task_ids_distinct(store: StoreView, i: int, j: int)
    requires
        store.wf(),
        0 <= i < store.tasks.len(),
        0 <= j < store.tasks.len(),
        i != j,
    ensures
        store.tasks[i].id != store.tasks[j].id,
{
    if i < j {
        assert(store.tasks[i].id.0 < store.tasks[j].id.0);
    } else {
        assert(store.tasks[j].id.0 < store.tasks[i].id.0);
    }
}

/// A task that is created gets an identifier that no task of the store
/// has, and the store stays well-formed, so that tasks created one after
/// another, by whomever, never collide.
pub proof fn lemma_created_id_is_fresh(
    store: StoreView,
    caller: Seq<char>,
    title: Seq<char>,
    description: Option<Seq<char>>,
    now: u64,
)
    requires
        store.wf(),
        store.issued < u64::MAX,
        !is_blank(title),
    ensures
        !store.holds_task(store.next_task(caller, title, description, now).id),
        create_outcome(store, caller, title, description, now).1.wf(),
        create_outcome(store, caller, title, description, now).1.holds_task(
            store.next_task(caller, title, description, now).id,
        ),
{
    let made = store.next_task(caller, title, description, now);
    let after = store.with_task(caller, title, description, now);
    assert(after.tasks[store.tasks.len() as int] == made);
    assert forall|i: int, j: int| 0 <= i < j < after.tasks.len() implies (#[trigger] after.tasks[i]).id.0 < (
    #[trigger] after.tasks[j]).id.0 by {
        assert(after.tasks[i] == store.tasks[i]);
        if j < store.tasks.len() {
            assert(after.tasks[j] == store.tasks[j]);
        }
    }
    assert forall|i: int| 0 <= i < after.tasks.len() implies (#[trigger] after.tasks[i]).id.0 < after.issued by {
        if i < store.tasks.len() {
            assert(after.tasks[i] == store.tasks[i]);
        }
    }
}

/// Two tasks created one after the other get different identifiers,
/// whoever creates them and whatever they hold.
pub proof fn lemma_successive_creates_differ(
    store: StoreView,
    first_caller: Seq<char>,
    first_title: Seq<char>,
    second_caller: Seq<char>,
    second_title: Seq<char>,
    now: u64,
)
    requires
        store.wf(),
        store.issued < u64::MAX - 1,
        !is_blank(first_title),
        !is_blank(second_title),
    ensures
        ({
            let first = create_outcome(store, first_caller, first_title, None, now);
            let second = create_outcome(first.1, second_caller, second_title, None, now);
            first.0 is Ok && second.0 is Ok && first.0->Ok_0.id != second.0->Ok_0.id
        }),
{
}

/// A request to create a task, as the store sees it.
pub struct CreateRequest {
    pub caller: Seq<char>,
    pub title: Seq<char>,
    pub description: Option<Seq<char>>,
    pub now: u64,
}

/// The store after the given requests to create a task were served, one
/// after the other, in any interleaving of their callers.
pub open spec fn after_creates(store: StoreView, requests: Seq<CreateRequest>) -> StoreView
    decreases requests.len(),
{
    if requests.len() == 0 {
        store
    } else {
        let request = requests.last();
        create_outcome(
            after_creates(store, requests.drop_last()),
            request.caller,
            request.title,
            request.description,
            request.now,
        ).1
    }
}

/// The task that the `k`-th of the requests makes.
pub open spec fn made(store: StoreView, requests: Seq<CreateRequest>, k: int) -> TaskView {
    TaskView {
        id: TaskId((store.issued + k) as u64),
        owner: requests[k].caller,
        title: requests[k].title,
        description: requests[k].description,
        completed: false,
        created_at: requests[k].now,
    }
}

/// The tasks that the requests make, in the order of the requests.
pub open spec fn all_made(store: StoreView, requests: Seq<CreateRequest>) -> Seq<TaskView> {
    Seq::new(requests.len(), |k: int| made(store, requests, k))
}

/// Requests to create tasks with proper titles all succeed: each makes its
/// own task, and the store afterwards holds what it held, followed by the
/// new tasks in the order in which the requests were served.
pub proof fn lemma_creates_in_a_row(store: StoreView, requests: Seq<CreateRequest>)
    requires
        store.wf(),
        store.issued + requests.len() <= u64::MAX,
        forall|k: int| 0 <= k < requests.len() ==> !is_blank((#[trigger] requests[k]).title),
    ensures
        after_creates(store, requests).wf(),
        after_creates(store, requests).issued == store.issued + requests.len(),
        after_creates(store, requests).users == store.users,
        after_creates(store, requests).tasks == store.tasks + all_made(store, requests),
        forall|k: int|
            0 <= k < requests.len() ==> create_outcome(
                #[trigger] after_creates(store, requests.take(k)),
                requests[k].caller,
                requests[k].title,
                requests[k].description,
                requests[k].now,
            ).0 == Ok::<TaskView, ApiError>(made(store, requests, k)),
    decreases requests.len(),
{
    if requests.len() == 0 {
        assert(store.tasks + all_made(store, requests) =~= store.tasks);
    } else {
        let n = requests.len() as int;
        let front = requests.drop_last();
        let last = requests.last();
        lemma_creates_in_a_row(store, front);
        let before = after_creates(store, front);
        lemma_created_id_is_fresh(before, last.caller, last.title, last.description, last.now);
        assert(before.next_task(last.caller, last.title, last.description, last.now) == made(store, requests, n - 1));
        assert(after_creates(store, requests).tasks =~= store.tasks + all_made(store, requests)) by {
            assert forall|k: int| 0 <= k < n - 1 implies made(store, front, k) == made(store, requests, k) by {
                assert(front[k] == requests[k]);
            }
            assert(all_made(store, requests) =~= all_made(store, front).push(made(store, requests, n - 1)));
        }
        assert forall|k: int| 0 <= k < requests.len() implies create_outcome(
            #[trigger] after_creates(store, requests.take(k)),
            requests[k].caller,
            requests[k].title,
            requests[k].description,
            requests[k].now,
        ).0 == Ok::<TaskView, ApiError>(made(store, requests, k)) by {
            if k < n - 1 {
                assert(requests.take(k) == front.take(k));
                assert(front[k] == requests[k]);
                assert(made(store, front, k) == made(store, requests, k));
            } else {
                assert(requests.take(k) == front);
            }
        }
    }
}

/// However many tasks are created, by whomever and in whatever order the
/// requests are served, no two of them get the same identifier, and none
/// gets one that a task of the store already had.
pub proof fn lemma_created_ids_never_collide(store: StoreView, requests: Seq<CreateRequest>)
    requires
        store.wf(),
        store.issued + requests.len() <= u64::MAX,
    ensures
        forall|j: int, k: int|
            0 <= j < k < requests.len() ==> (#[trigger] made(store, requests, j)).id != (#[trigger] made(
                store,
                requests,
                k,
            )).id,
        forall|k: int| 0 <= k < requests.len() ==> !store.holds_task((#[trigger] made(store, requests, k)).id),
{
    assert forall|k: int| 0 <= k < requests.len() implies !store.holds_task(
        (#[trigger] made(store, requests, k)).id,
    ) by {
        if store.holds_task(made(store, requests, k).id) {
            let at = choose|i: int|
                0 <= i < store.tasks.len() && (#[trigger] store.tasks[i]).id == made(store, requests, k).id;
            assert(store.tasks[at].id.0 < store.issued);
        }
    }
}

/// After any run of successful creates, the list of a subject is what it
/// was, followed by exactly the tasks that the subject created in the
/// run, in the order of their creation, and by no task of anybody else.
pub proof fn lemma_list_after_creates(store: StoreView, requests: Seq<CreateRequest>, subject: Seq<char>)
    requires
        store.wf(),
        store.issued + requests.len() <= u64::MAX,
        forall|k: int| 0 <= k < requests.len() ==> !is_blank((#[trigger] requests[k]).title),
    ensures
        after_creates(store, requests).tasks_of(subject) == store.tasks_of(subject) + all_made(store, requests).filter(
            owned_by(subject),
        ),
{
    lemma_creates_in_a_row(store, requests);
    Seq::filter_distributes_over_add(store.tasks, all_made(store, requests), owned_by(subject));
}

/// The list of a subject holds that subject's tasks and nothing else: each
/// task listed is in the store and is the subject's, each task of the
/// subject in the store is listed, and the list keeps the store's order,
/// which is the order of creation.
pub proof fn lemma_list_is_exactly_own_tasks(store: StoreView, subject: Seq<char>)
    requires
        store.wf(),
    ensures
        forall|k: int|
            0 <= k < store.tasks_of(subject).len() ==> (#[trigger] store.tasks_of(subject)[k]).owner == subject
                && store.tasks.contains(store.tasks_of(subject)[k]),
        forall|i: int|
            0 <= i < store.tasks.len() && (#[trigger] store.tasks[i]).owner == subject ==> store.tasks_of(
                subject,
            ).contains(store.tasks[i]),
        forall|k: int, l: int|
            0 <= k < l < store.tasks_of(subject).len() ==> (#[trigger] store.tasks_of(subject)[k]).id.0 < (
            #[trigger] store.tasks_of(subject)[l]).id.0,
{
    let listed = store.tasks_of(subject);
    let at = lemma_filter_positions(store.tasks, owned_by(subject));
    assert forall|k: int| 0 <= k < listed.len() implies (#[trigger] listed[k]).owner == subject
        && store.tasks.contains(listed[k]) by {
        assert(listed[k] == store.tasks[at[k]]);
    }
    assert forall|i: int| 0 <= i < store.tasks.len() && (#[trigger] store.tasks[i]).owner == subject implies listed.contains(
        store.tasks[i],
    ) by {
        store.tasks.lemma_filter_contains(owned_by(subject), i);
    }
    assert forall|k: int, l: int| 0 <= k < l < listed.len() implies (#[trigger] listed[k]).id.0 < (
    #[trigger] listed[l]).id.0 by {
        assert(listed[k] == store.tasks[at[k]]);
        assert(listed[l] == store.tasks[at[l]]);
    }
}

/// After a task was created, its owner's list is what it was with the new
/// task at the end, and everybody else's list is what it was.
pub proof fn lemma_create_then_list(
    store: StoreView,
    caller: Seq<char>,
    title: Seq<char>,
    description: Option<Seq<char>>,
    now: u64,
    subject: Seq<char>,
)
    requires
        !is_blank(title),
    ensures
        create_outcome(store, caller, title, description, now).1.tasks_of(subject) == if subject == caller {
            store.tasks_of(subject).push(store.next_task(caller, title, description, now))
        } else {
            store.tasks_of(subject)
        },
{
    store.tasks.lemma_filter_push(store.next_task(caller, title, description, now), owned_by(subject));
}

/// A title that is empty or all white space is refused: the store is what
/// it was, and so is every list.
pub proof fn lemma_blank_title_creates_nothing(
    store: StoreView,
    caller: Seq<char>,
    title: Seq<char>,
    description: Option<Seq<char>>,
    now: u64,
    subject: Seq<char>,
)
    requires
        is_blank(title),
    ensures
        create_outcome(store, caller, title, description, now).0 == Err::<TaskView, ApiError>(ApiError::Validation),
        create_outcome(store, caller, title, description, now).1 == store,
        create_outcome(store, caller, title, description, now).1.tasks_of(subject).len() == store.tasks_of(
            subject,
        ).len(),
{
}

/// Deleting a task that is not the caller's gives the answer that deleting
/// a task that does not exist gives, and neither changes the store: the
/// answer tells nothing of whether the task exists.
pub proof fn lemma_foreign_task_looks_missing(store: StoreView, caller: Seq<char>, foreign: TaskId, missing: TaskId)
    requires
        !store.owns(caller, foreign),
        !store.holds_task(missing),
    ensures
        delete_outcome(store, caller, foreign) == delete_outcome(store, caller, missing),
        delete_outcome(store, caller, foreign) == (Err::<(), ApiError>(ApiError::NotFound), store),
{
    if store.owns(caller, missing) {
        let at = choose|i: int|
            0 <= i < store.tasks.len() && (#[trigger] store.tasks[i]).id == missing && store.tasks[i].owner == caller;
        assert(store.tasks[at].id == missing);
    }
}

/// Deleting the same task twice succeeds once: the second attempt finds
/// nothing and changes nothing.
pub proof fn lemma_delete_twice(store: StoreView, caller: Seq<char>, id: TaskId)
    requires
        store.wf(),
        store.owns(caller, id),
    ensures
        ({
            let first = delete_outcome(store, caller, id);
            let second = delete_outcome(first.1, caller, id);
            &&& first.0 == Ok::<(), ApiError>(())
            &&& first.1.wf()
            &&& !first.1.holds_task(id)
            &&& second.0 == Err::<(), ApiError>(ApiError::NotFound)
            &&& second.1 == first.1
        }),
{
    let after = store.without_task(id);
    lemma_fewer_tasks_keep_wf(store, other_than(id));
    let at = lemma_filter_positions(store.tasks, other_than(id));
    assert forall|k: int| 0 <= k < after.tasks.len() implies (#[trigger] after.tasks[k]).id != id by {
        assert(after.tasks[k] == store.tasks[at[k]]);
    }
    if after.owns(caller, id) {
        let k = choose|k: int|
            0 <= k < after.tasks.len() && (#[trigger] after.tasks[k]).id == id && after.tasks[k].owner == caller;
        assert(after.tasks[k].id != id);
    }
}

/// After a caller deleted a task of theirs, their list is what it was
/// without that task, and everybody else's list is what it was. The store's
/// users and its count of identifiers are untouched.
pub proof fn lemma_delete_then_list(store: StoreView, caller: Seq<char>, id: TaskId, subject: Seq<char>)
    requires
        store.wf(),
        store.owns(caller, id),
    ensures
        delete_outcome(store, caller, id).1.tasks_of(subject) == store.tasks_of(subject).filter(other_than(id)),
        subject != caller ==> delete_outcome(store, caller, id).1.tasks_of(subject) == store.tasks_of(subject),
        delete_outcome(store, caller, id).1.users == store.users,
        delete_outcome(store, caller, id).1.issued == store.issued,
{
    lemma_filter_commutes(store.tasks, other_than(id), owned_by(subject));
    if subject != caller {
        let listed = store.tasks_of(subject);
        let at = lemma_filter_positions(store.tasks, owned_by(subject));
        let mine = choose|i: int|
            0 <= i < store.tasks.len() && (#[trigger] store.tasks[i]).id == id && store.tasks[i].owner == caller;
        assert forall|k: int| 0 <= k < listed.len() implies other_than(id)(#[trigger] listed[k]) by {
            assert(listed[k] == store.tasks[at[k]]);
            if at[k] < mine {
                assert(store.tasks[at[k]].id.0 < store.tasks[mine].id.0);
            } else if mine < at[k] {
                assert(store.tasks[mine].id.0 < store.tasks[at[k]].id.0);
            }
        }
        lemma_filter_keeps_all(listed, other_than(id));
    }
}

} // verus!
