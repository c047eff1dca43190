//! The persisted state: tasks and mirrored user accounts, in the order in
//! which they came, with the operations that the handlers are made of.
//!
//! The store keeps what a relational store would keep for the service, as
//! plain values, so that what the handlers do to it can be stated and
//! proved. Every operation is one bounded unit of work: it either takes
//! effect whole or leaves the store as it was.

use vstd::prelude::*;
use crate::text::opt_text;

verus! {

/// The identifier of a task. The store hands them out; a caller cannot
/// choose one.
#[derive(Clone, Copy, Debug, PartialEq, Eq, Hash, Structural)]
pub struct TaskId(pub u64);

#[derive(Debug, PartialEq, Eq)]
pub struct Task {
    pub id: TaskId,
    /// The subject identifier of the caller who created the task.
    pub owner: String,
    pub title: String,
    pub description: Option<String>,
    pub completed: bool,
    /// When the task was created, in seconds since the Unix epoch.
    pub created_at: u64,
}

pub struct TaskView {
    pub id: TaskId,
    pub owner: Seq<char>,
    pub title: Seq<char>,
    pub description: Option<Seq<char>>,
    pub completed: bool,
    pub created_at: u64,
}

impl View for Task {
    type V = TaskView;

    open spec fn view(&self) -> TaskView {
        TaskView {
            id: self.id,
            owner: self.owner@,
            title: self.title@,
            description: opt_text(self.description),
            completed: self.completed,
            created_at: self.created_at,
        }
    }
}

impl Clone for Task {
    fn clone(&self) -> (copy: Task)
        ensures
            copy@ == self@,
    {
        Task {
            id: self.id,
            owner: self.owner.clone(),
            title: self.title.clone(),
            description: self.description.clone(),
            completed: self.completed,
            created_at: self.created_at,
        }
    }
}

/// The service's record of an account of the identity provider. The
/// identity provider stays the source of truth; the record mirrors it.
#[derive(Debug, PartialEq, Eq)]
pub struct UserRecord {
    pub subject: String,
    pub display_name: Option<String>,
    pub email: Option<String>,
}

pub struct UserView {
    pub subject: Seq<char>,
    pub display_name: Option<Seq<char>>,
    pub email: Option<Seq<char>>,
}

impl View for UserRecord {
    type V = UserView;

    open spec fn view(&self) -> UserView {
        UserView {
            subject: self.subject@,
            display_name: opt_text(self.display_name),
            email: opt_text(self.email),
        }
    }
}

impl Clone for UserRecord {
    fn clone(&self) -> (copy: UserRecord)
        ensures
            copy@ == self@,
    {
        UserRecord {
            subject: self.subject.clone(),
            display_name: self.display_name.clone(),
            email: self.email.clone(),
        }
    }
}

pub open spec fn task_views(tasks: Seq<Task>) -> Seq<TaskView> {
    tasks.map_values(|task: Task| task@)
}

pub open spec fn user_views(users: Seq<UserRecord>) -> Seq<UserView> {
    users.map_values(|user: UserRecord| user@)
}

/// The tasks of one owner.
pub open spec fn owned_by(subject: Seq<char>) -> spec_fn(TaskView) -> bool {
    |task: TaskView| task.owner == subject
}

/// The tasks of everybody else.
pub open spec fn not_owned_by(subject: Seq<char>) -> spec_fn(TaskView) -> bool {
    |task: TaskView| task.owner != subject
}

/// All tasks but the one with the given identifier.
pub open spec fn other_than(id: TaskId) -> spec_fn(TaskView) -> bool {
    |task: TaskView| task.id != id
}

/// All accounts but the one of the given subject.
pub open spec fn not_subject(subject: Seq<char>) -> spec_fn(UserView) -> bool {
    |user: UserView| user.subject != subject
}

/// What the store holds.
pub struct StoreView {
    /// The tasks, oldest first.
    pub tasks: Seq<TaskView>,
    /// The mirrored accounts, in the order in which they were first seen.
    pub users: Seq<UserView>,
    /// How many task identifiers have been handed out so far.
    pub issued: u64,
}

impl StoreView {
    /// The store's invariant: identifiers grow along the tasks, so no two
    /// tasks share one and the order of the tasks is the order of their
    /// creation; every identifier in use has been handed out; and no
    /// subject has two records.
    pub open spec fn wf(self) -> bool {
        &&& forall|i: int, j: int|
            0 <= i < j < self.tasks.len() ==> (#[trigger] self.tasks[i]).id.0 < (#[trigger] self.tasks[j]).id.0
        &&& forall|i: int| 0 <= i < self.tasks.len() ==> (#[trigger] self.tasks[i]).id.0 < self.issued
        &&& forall|i: int, j: int|
            0 <= i < j < self.users.len() ==> (#[trigger] self.users[i]).subject != (#[trigger] self.users[j]).subject
    }

    pub open spec fn holds_task(self, id: TaskId) -> bool {
        exists|i: int| 0 <= i < self.tasks.len() && (#[trigger] self.tasks[i]).id == id
    }

    /// The task with the given identifier, if the store holds one.
    pub open spec fn task(self, id: TaskId) -> Option<TaskView> {
        if self.holds_task(id) {
            Some(self.tasks[choose|i: int| 0 <= i < self.tasks.len() && (#[trigger] self.tasks[i]).id == id])
        } else {
            None
        }
    }

    /// Whether the store holds a task with that identifier that belongs to
    /// the subject.
    pub open spec fn owns(self, subject: Seq<char>, id: TaskId) -> bool {
        exists|i: int|
            0 <= i < self.tasks.len() && (#[trigger] self.tasks[i]).id == id && self.tasks[i].owner == subject
    }

    /// The tasks of one owner, oldest first.
    pub open spec fn tasks_of(self, subject: Seq<char>) -> Seq<TaskView> {
        self.tasks.filter(owned_by(subject))
    }

    /// The task that the store would make of the given content.
    pub open spec fn next_task(
        self,
        owner: Seq<char>,
        title: Seq<char>,
        description: Option<Seq<char>>,
        now: u64,
    ) -> TaskView {
        TaskView { id: TaskId(self.issued), owner, title, description, completed: false, created_at: now }
    }

    /// The store with one more task, made of the given content.
    pub open spec fn with_task(
        self,
        owner: Seq<char>,
        title: Seq<char>,
        description: Option<Seq<char>>,
        now: u64,
    ) -> StoreView {
        StoreView {
            tasks: self.tasks.push(self.next_task(owner, title, description, now)),
            users: self.users,
            issued: (self.issued + 1) as u64,
        }
    }

    /// The store without the task of the given identifier.
    pub open spec fn without_task(self, id: TaskId) -> StoreView {
        StoreView { tasks: self.tasks.filter(other_than(id)), users: self.users, issued: self.issued }
    }

    /// The store without the tasks of the given owner.
    pub open spec fn without_tasks_of(self, subject: Seq<char>) -> StoreView {
        StoreView { tasks: self.tasks.filter(not_owned_by(subject)), users: self.users, issued: self.issued }
    }

    pub open spec fn knows(self, subject: Seq<char>) -> bool {
        exists|i: int| 0 <= i < self.users.len() && (#[trigger] self.users[i]).subject == subject
    }

    /// The store without the record of the given subject. Its tasks stay.
    pub open spec fn without_user(self, subject: Seq<char>) -> StoreView {
        StoreView { tasks: self.tasks, users: self.users.filter(not_subject(subject)), issued: self.issued }
    }

    /// The store with the given record: in place of the one that the
    /// subject had, or after all others if it had none.
    pub open spec fn with_user(self, user: UserView) -> StoreView {
        let users = if self.knows(user.subject) {
            self.users.update(
                choose|i: int| 0 <= i < self.users.len() && (#[trigger] self.users[i]).subject == user.subject,
                user,
            )
        } else {
            self.users.push(user)
        };
        StoreView { tasks: self.tasks, users, issued: self.issued }
    }
}

/// Filtering by a condition that every element meets changes nothing.
pub proof fn lemma_filter_keeps_all<A>(s: Seq<A>, keep: spec_fn(A) -> bool)
    requires
        forall|i: int| 0 <= i < s.len() ==> keep(#[trigger] s[i]),
    ensures
        s.filter(keep) == s,
    decreases s.len(),
{
    reveal(Seq::filter);
    if s.len() > 0 {
        lemma_filter_keeps_all(s.drop_last(), keep);
        assert(s.drop_last().push(s.last()) == s);
    }
}

/// Filtering by a condition that one element alone fails removes that element.
pub proof fn lemma_filter_drops_one<A>(s: Seq<A>, keep: spec_fn(A) -> bool, at: int)
    requires
        0 <= at < s.len(),
        forall|i: int| 0 <= i < s.len() ==> (keep(#[trigger] s[i]) <==> i != at),
    ensures
        s.filter(keep) == s.remove(at),
    decreases s.len(),
{
    reveal(Seq::filter);
    let front = s.drop_last();
    if at == s.len() - 1 {
        lemma_filter_keeps_all(front, keep);
        assert(s.remove(at) == front);
    } else {
        lemma_filter_drops_one(front, keep, at);
        assert(front.remove(at).push(s.last()) == s.remove(at));
    }
}

/// Two filters can be applied in either order.
pub proof fn lemma_filter_commutes<A>(s: Seq<A>, p: spec_fn(A) -> bool, q: spec_fn(A) -> bool)
    ensures
        s.filter(p).filter(q) == s.filter(q).filter(p),
    decreases s.len(),
{
    if s.len() == 0 {
        reveal(Seq::filter);
    } else {
        let front = s.drop_last();
        let x = s.last();
        assert(front.push(x) == s);
        lemma_filter_commutes(front, p, q);
        front.lemma_filter_push(x, p);
        front.lemma_filter_push(x, q);
        front.filter(p).lemma_filter_push(x, q);
        front.filter(q).lemma_filter_push(x, p);
    }
}

/// What a filter keeps stood in the sequence, in the same order: the
/// elements kept are found at growing positions.
pub proof fn lemma_filter_positions<A>(s: Seq<A>, keep: spec_fn(A) -> bool) -> (at: Seq<int>)
    ensures
        at.len() == s.filter(keep).len(),
        forall|k: int| 0 <= k < at.len() ==> 0 <= #[trigger] at[k] < s.len() && s.filter(keep)[k] == s[at[k]]
            && keep(s[at[k]]),
        forall|k: int, l: int| 0 <= k < l < at.len() ==> #[trigger] at[k] < #[trigger] at[l],
    decreases s.len(),
{
    reveal(Seq::filter);
    if s.len() == 0 {
        Seq::empty()
    } else {
        let front = lemma_filter_positions(s.drop_last(), keep);
        if keep(s.last()) {
            front.push(s.len() - 1)
        } else {
            front
        }
    }
}

/// Taking tasks out of a well-formed store leaves it well-formed.
pub proof fn lemma_fewer_tasks_keep_wf(store: StoreView, keep: spec_fn(TaskView) -> bool)
    requires
        store.wf(),
    ensures
        (StoreView { tasks: store.tasks.filter(keep), users: store.users, issued: store.issued }).wf(),
{
    let at = lemma_filter_positions(store.tasks, keep);
    let kept = store.tasks.filter(keep);
    assert forall|i: int, j: int| 0 <= i < j < kept.len() implies (#[trigger] kept[i]).id.0 < (#[trigger] kept[j]).id.0 by {
        assert(kept[i] == store.tasks[at[i]]);
        assert(kept[j] == store.tasks[at[j]]);
    }
    assert forall|i: int| 0 <= i < kept.len() implies (#[trigger] kept[i]).id.0 < store.issued by {
        assert(kept[i] == store.tasks[at[i]]);
    }
}

/// The in-memory store.
pub struct Store {
    tasks: Vec<Task>,
    users: Vec<UserRecord>,
    issued: u64,
}

impl View for Store {
    type V = StoreView;

    closed spec fn view(&self) -> StoreView {
        StoreView { tasks: task_views(self.tasks@), users: user_views(self.users@), issued: self.issued }
    }
}

impl Store {
    pub open spec fn wf(&self) -> bool {
        self@.wf()
    }

    /// An empty store that has handed out no identifier yet.
    pub fn new() -> (store: Store)
        ensures
            store.wf(),
            store@.tasks.len() == 0,
            store@.users.len() == 0,
            store@.issued == 0,
    {
        Store { tasks: Vec::new(), users: Vec::new(), issued: 0 }
    }

    /// How many task identifiers have been handed out.
    pub fn issued(&self) -> (count: u64)
        ensures
            count == self@.issued,
    {
        self.issued
    }

    pub fn task_count(&self) -> (count: usize)
        ensures
            count == self@.tasks.len(),
    {
        self.tasks.len()
    }

    pub fn user_count(&self) -> (count: usize)
        ensures
            count == self@.users.len(),
    {
        self.users.len()
    }

    /// Where the task with the given identifier stands.
    fn position_of(&self, id: TaskId) -> (found: Option<usize>)
        ensures
            match found {
                Some(at) => at < self.tasks.len() && self.tasks@[at as int].id == id,
                None => !self@.holds_task(id),
            },
    {
        let mut i: usize = 0;
        while i < self.tasks.len()
            invariant
                i <= self.tasks.len(),
                forall|j: int| 0 <= j < i ==> (#[trigger] self.tasks@[j]).id != id,
            decreases self.tasks.len() - i,
        {
            if self.tasks[i].id.0 == id.0 {
                return Some(i);
            }
            i += 1;
        }
        assert forall|j: int| 0 <= j < self@.tasks.len() implies (#[trigger] self@.tasks[j]).id != id by {
            assert(self@.tasks[j] == self.tasks@[j]@);
        }
        None
    }

    /// Where the record of the given subject stands.
    fn position_of_user(&self, subject: &String) -> (found: Option<usize>)
        ensures
            match found {
                Some(at) => at < self.users.len() && self.users@[at as int].subject@ == subject@,
                None => !self@.knows(subject@),
            },
    {
        let mut i: usize = 0;
        while i < self.users.len()
            invariant
                i <= self.users.len(),
                forall|j: int| 0 <= j < i ==> (#[trigger] self.users@[j]).subject@ != subject@,
            decreases self.users.len() - i,
        {
            if self.users[i].subject == *subject {
                return Some(i);
            }
            i += 1;
        }
        assert forall|j: int| 0 <= j < self@.users.len() implies (#[trigger] self@.users[j]).subject != subject@ by {
            assert(self@.users[j] == self.users@[j]@);
        }
        None
    }

    /// Looks a task up by its identifier.
    pub fn task(&self, id: TaskId) -> (found: Option<&Task>)
        requires
            self.wf(),
        ensures
            match self@.task(id) {
                Some(task) => found is Some && found->0@ == task,
                None => found is None,
            },
    {
        match self.position_of(id) {
            Some(at) => {
                proof {
                    assert(self@.tasks[at as int] == self.tasks@[at as int]@);
                    let chosen = choose|i: int| 0 <= i < self@.tasks.len() && (#[trigger] self@.tasks[i]).id == id;
                    assert(chosen == at) by {
                        if chosen < at {
                            assert(self@.tasks[chosen].id.0 < self@.tasks[at as int].id.0);
                        } else if chosen > at {
                            assert(self@.tasks[at as int].id.0 < self@.tasks[chosen].id.0);
                        }
                    }
                }
                Some(&self.tasks[at])
            },
            None => None,
        }
    }

    /// Adds a task with the given content for the given owner, under the
    /// next identifier, and hands a copy of it back.
    pub fn insert_task(&mut self, owner: String, title: String, description: Option<String>, now: u64) -> (task:
        Task)
        requires
            old(self).wf(),
            old(self)@.issued < u64::MAX,
        ensures
            final(self).wf(),
            task@ == old(self)@.next_task(owner@, title@, opt_text(description), now),
            final(self)@ == old(self)@.with_task(owner@, title@, opt_text(description), now),
    {
        let task = Task { id: TaskId(self.issued), owner, title, description, completed: false, created_at: now };
        let copy = task.clone();
        self.tasks.push(task);
        self.issued = self.issued + 1;
        proof {
            let before = old(self)@;
            let after = self@;
            assert(after.tasks =~= before.tasks.push(copy@));
            assert forall|i: int, j: int| 0 <= i < j < after.tasks.len() implies (#[trigger] after.tasks[i]).id.0 < (
            #[trigger] after.tasks[j]).id.0 by {
                if j < before.tasks.len() {
                    assert(after.tasks[i] == before.tasks[i]);
                    assert(after.tasks[j] == before.tasks[j]);
                } else {
                    assert(after.tasks[i] == before.tasks[i]);
                }
            }
            assert forall|i: int| 0 <= i < after.tasks.len() implies (#[trigger] after.tasks[i]).id.0 < after.issued by {
                if i < before.tasks.len() {
                    assert(after.tasks[i] == before.tasks[i]);
                }
            }
        }
        copy
    }

    /// Copies of the tasks of one owner, oldest first.
    pub fn tasks_owned_by(&self, subject: &String) -> (tasks: Vec<Task>)
        ensures
            task_views(tasks@) == self@.tasks_of(subject@),
    {
        let mut found: Vec<Task> = Vec::new();
        let mut i: usize = 0;
        proof {
            reveal(Seq::filter);
            assert(self@.tasks.take(0).len() == 0);
            assert(task_views(found@) =~= self@.tasks.take(0).filter(owned_by(subject@)));
        }
        while i < self.tasks.len()
            invariant
                i <= self.tasks.len(),
                task_views(found@) == self@.tasks.take(i as int).filter(owned_by(subject@)),
            decreases self.tasks.len() - i,
        {
            proof {
                let seen = self@.tasks.take(i as int);
                assert(self@.tasks.take(i + 1) == seen.push(self@.tasks[i as int]));
                seen.lemma_filter_push(self@.tasks[i as int], owned_by(subject@));
                assert(self@.tasks[i as int] == self.tasks@[i as int]@);
            }
            if self.tasks[i].owner == *subject {
                let ghost before = found@;
                let copy = self.tasks[i].clone();
                found.push(copy);
                assert(task_views(found@) =~= task_views(before).push(copy@));
            }
            i += 1;
        }
        assert(self@.tasks.take(i as int) == self@.tasks);
        found
    }

    /// Removes the task with the given identifier, if there is one, and
    /// says whether there was.
    pub fn remove_task(&mut self, id: TaskId) -> (removed: bool)
        requires
            old(self).wf(),
        ensures
            final(self).wf(),
            removed == old(self)@.holds_task(id),
            final(self)@ == old(self)@.without_task(id),
            !removed ==> final(self)@ == old(self)@,
    {
        proof {
            lemma_fewer_tasks_keep_wf(self@, other_than(id));
        }
        match self.position_of(id) {
            Some(at) => {
                proof {
                    let tasks = self@.tasks;
                    assert(tasks[at as int] == self.tasks@[at as int]@);
                    assert forall|i: int| 0 <= i < tasks.len() implies (other_than(id)(#[trigger] tasks[i]) <==> i
                        != at) by {
                        if i < at {
                            assert(tasks[i].id.0 < tasks[at as int].id.0);
                        } else if i > at {
                            assert(tasks[at as int].id.0 < tasks[i].id.0);
                        }
                    }
                    lemma_filter_drops_one(tasks, other_than(id), at as int);
                }
                self.tasks.remove(at);
                assert(self@.tasks =~= old(self)@.tasks.remove(at as int));
                true
            },
            None => {
                proof {
                    lemma_filter_keeps_all(self@.tasks, other_than(id));
                }
                false
            },
        }
    }

    /// Removes every task of the given owner.
    pub fn remove_tasks_of(&mut self, subject: &String)
        requires
            old(self).wf(),
        ensures
            final(self).wf(),
            final(self)@ == old(self)@.without_tasks_of(subject@),
    {
        let ghost keep = not_owned_by(subject@);
        let ghost all = self@.tasks;
        let mut i: usize = self.tasks.len();
        proof {
            lemma_fewer_tasks_keep_wf(self@, keep);
            reveal(Seq::filter);
            assert(all.skip(i as int).len() == 0);
            assert(all =~= all.take(i as int) + all.skip(i as int).filter(keep));
        }
        while i > 0
            invariant
                i <= all.len(),
                i <= self.tasks.len(),
                task_views(self.tasks@) == all.take(i as int) + all.skip(i as int).filter(keep),
                self.users == old(self).users,
                self.issued == old(self).issued,
                keep == not_owned_by(subject@),
            decreases i,
        {
            i -= 1;
            proof {
                let tail = all.skip(i + 1);
                assert(all.skip(i as int) == seq![all[i as int]] + tail);
                tail.lemma_filter_prepend(all[i as int], keep);
                assert(task_views(self.tasks@)[i as int] == all.take(i + 1)[i as int]);
                assert(self.tasks@[i as int]@ == all[i as int]);
            }
            if self.tasks[i].owner == *subject {
                let ghost before = self.tasks@;
                self.tasks.remove(i);
                assert(task_views(self.tasks@) =~= task_views(before).remove(i as int));
                assert(task_views(self.tasks@) =~= all.take(i as int) + all.skip(i as int).filter(keep));
            } else {
                assert(task_views(self.tasks@) =~= all.take(i as int) + all.skip(i as int).filter(keep));
            }
        }
        assert(all.skip(0) == all);
        assert(task_views(self.tasks@) =~= all.filter(keep));
    }

    /// Copies of all mirrored accounts, in the order in which they were first seen.
    pub fn users(&self) -> (users: Vec<UserRecord>)
        ensures
            user_views(users@) == self@.users,
    {
        let mut copies: Vec<UserRecord> = Vec::new();
        let mut i: usize = 0;
        while i < self.users.len()
            invariant
                i <= self.users.len(),
                user_views(copies@) == self@.users.take(i as int),
            decreases self.users.len() - i,
        {
            let ghost before = copies@;
            let copy = self.users[i].clone();
            copies.push(copy);
            proof {
                assert(self@.users[i as int] == self.users@[i as int]@);
                assert(self@.users.take(i + 1) == self@.users.take(i as int).push(self@.users[i as int]));
                assert(user_views(copies@) =~= user_views(before).push(copy@));
            }
            i += 1;
        }
        assert(self@.users.take(i as int) == self@.users);
        copies
    }

    /// Records an account of the identity provider, or brings the record
    /// that the subject already has up to date.
    pub fn put_user(&mut self, user: UserRecord)
        requires
            old(self).wf(),
        ensures
            final(self).wf(),
            final(self)@ == old(self)@.with_user(user@),
    {
        let ghost before = self@;
        match self.position_of_user(&user.subject) {
            Some(at) => {
                proof {
                    assert(before.users[at as int] == self.users@[at as int]@);
                    let chosen = choose|i: int| 0 <= i < before.users.len() && (#[trigger] before.users[i]).subject == user@.subject;
                    assert(chosen == at) by {
                        if chosen < at {
                            assert(before.users[chosen].subject != before.users[at as int].subject);
                        } else if chosen > at {
                            assert(before.users[at as int].subject != before.users[chosen].subject);
                        }
                    }
                }
                let ghost view = user@;
                self.users.set(at, user);
                proof {
                    assert(self@.users =~= before.users.update(at as int, view));
                    assert forall|i: int, j: int| 0 <= i < j < self@.users.len() implies (#[trigger] self@.users[i]).subject != (
                    #[trigger] self@.users[j]).subject by {
                        assert(self@.users[i].subject == before.users[i].subject);
                        assert(self@.users[j].subject == before.users[j].subject);
                    }
                }
            },
            None => {
                let ghost view = user@;
                self.users.push(user);
                proof {
                    assert(self@.users =~= before.users.push(view));
                    assert forall|i: int, j: int| 0 <= i < j < self@.users.len() implies (#[trigger] self@.users[i]).subject != (
                    #[trigger] self@.users[j]).subject by {
                        assert(self@.users[i] == before.users[i]);
                        if j < before.users.len() {
                            assert(self@.users[j] == before.users[j]);
                        }
                    }
                }
            },
        }
    }

    /// Removes the record of the given subject, if there is one, and says
    /// whether there was. The subject's tasks are not touched.
    pub fn remove_user(&mut self, subject: &String) -> (removed: bool)
        requires
            old(self).wf(),
        ensures
            final(self).wf(),
            removed == old(self)@.knows(subject@),
            final(self)@ == old(self)@.without_user(subject@),
            !removed ==> final(self)@ == old(self)@,
    {
        let ghost before = self@;
        match self.position_of_user(subject) {
            Some(at) => {
                proof {
                    let users = before.users;
                    assert(users[at as int] == self.users@[at as int]@);
                    assert forall|i: int| 0 <= i < users.len() implies (not_subject(subject@)(#[trigger] users[i])
                        <==> i != at) by {
                        if i < at {
                            assert(users[i].subject != users[at as int].subject);
                        } else if i > at {
                            assert(users[at as int].subject != users[i].subject);
                        }
                    }
                    lemma_filter_drops_one(users, not_subject(subject@), at as int);
                }
                self.users.remove(at);
                proof {
                    assert(self@.users =~= before.users.remove(at as int));
                    assert forall|i: int, j: int| 0 <= i < j < self@.users.len() implies (#[trigger] self@.users[i]).subject != (
                    #[trigger] self@.users[j]).subject by {
                        let from_i = if i < at { i } else { i + 1 };
                        let from_j = if j < at { j } else { j + 1 };
                        assert(self@.users[i] == before.users[from_i]);
                        assert(self@.users[j] == before.users[from_j]);
                    }
                }
                true
            },
            None => {
                proof {
                    lemma_filter_keeps_all(before.users, not_subject(subject@));
                }
                false
            },
        }
    }
}

} // verus!
