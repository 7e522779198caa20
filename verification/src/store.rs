use vstd::prelude::*;

use crate::error::ApiError;

verus! {

/// Mathematical image of one stored task.
#[verifier::ext_equal]
pub ghost struct TaskView {
    pub id: u64,
    pub title: Seq<char>,
    pub done: bool,
    pub owner: Seq<char>,
}

/// Mathematical image of the whole store: registered users as
/// (username, password) pairs in insertion order, tasks in insertion order,
/// and the next task id to hand out.
#[verifier::ext_equal]
pub ghost struct StoreView {
    pub users: Seq<(Seq<char>, Seq<char>)>,
    pub tasks: Seq<TaskView>,
    pub next_id: u64,
}

/// Whether a user of that name is registered.
pub open spec fn has_user(users: Seq<(Seq<char>, Seq<char>)>, name: Seq<char>) -> bool {
    exists|i: int| 0 <= i < users.len() && users[i].0 == name
}

/// The position of the user of that name (meaningful when `has_user` holds;
/// unique under `StoreView::wf`).
pub open spec fn user_index(users: Seq<(Seq<char>, Seq<char>)>, name: Seq<char>) -> int {
    choose|i: int| 0 <= i < users.len() && users[i].0 == name
}

/// The password stored for a username, if any.
pub open spec fn stored_password(users: Seq<(Seq<char>, Seq<char>)>, name: Seq<char>) -> Option<
    Seq<char>,
> {
    if has_user(users, name) {
        Some(users[user_index(users, name)].1)
    } else {
        None
    }
}

/// Whether a task with this id exists and belongs to this owner.
pub open spec fn has_task(tasks: Seq<TaskView>, owner: Seq<char>, id: u64) -> bool {
    exists|i: int| 0 <= i < tasks.len() && tasks[i].id == id && tasks[i].owner == owner
}

/// The position of the owner's task with that id (meaningful when `has_task`
/// holds; unique under `StoreView::wf`).
pub open spec fn task_index(tasks: Seq<TaskView>, owner: Seq<char>, id: u64) -> int {
    choose|i: int| 0 <= i < tasks.len() && tasks[i].id == id && tasks[i].owner == owner
}

/// The owner's tasks, in insertion order.
pub open spec fn owned_tasks(tasks: Seq<TaskView>, owner: Seq<char>) -> Seq<TaskView> {
    tasks.filter(|t: TaskView| t.owner == owner)
}

impl StoreView {
    /// Well-formedness: usernames are unique, task ids are unique and below
    /// the id counter, and every task's owner is a registered user.
    pub open spec fn wf(self) -> bool {
        &&& forall|i: int, j: int|
            0 <= i < j < self.users.len() ==> (#[trigger] self.users[i]).0 != (
            #[trigger] self.users[j]).0
        &&& forall|i: int, j: int|
            0 <= i < j < self.tasks.len() ==> (#[trigger] self.tasks[i]).id != (
            #[trigger] self.tasks[j]).id
        &&& forall|i: int| 0 <= i < self.tasks.len() ==> (#[trigger] self.tasks[i]).id < self.next_id
        &&& forall|i: int|
            0 <= i < self.tasks.len() ==> has_user(self.users, (#[trigger] self.tasks[i]).owner)
    }
}

/// A registered user: the unique username and the password, stored as given.
pub struct User {
    pub username: String,
    pub password: String,
}

impl View for User {
    type V = (Seq<char>, Seq<char>);

    open spec fn view(&self) -> (Seq<char>, Seq<char>) {
        (self.username@, self.password@)
    }
}

/// A to-do item: a server-generated unique id, a mutable title and done
/// flag, and the immutable owner it is scoped to.
pub struct Task {
    pub id: u64,
    pub title: String,
    pub done: bool,
    pub owner: String,
}

impl View for Task {
    type V = TaskView;

    open spec fn view(&self) -> TaskView {
        TaskView { id: self.id, title: self.title@, done: self.done, owner: self.owner@ }
    }
}

impl Clone for Task {
    fn clone(&self) -> (r: Self)
        ensures
            r@ == self@,
    {
        Task {
            id: self.id,
            title: self.title.clone(),
            done: self.done,
            owner: self.owner.clone(),
        }
    }
}

/// The views of a sequence of tasks.
pub open spec fn tasks_view(tasks: Seq<Task>) -> Seq<TaskView> {
    tasks.map_values(|t: Task| t@)
}

/// The views of a sequence of users.
pub open spec fn users_view(users: Seq<User>) -> Seq<(Seq<char>, Seq<char>)> {
    users.map_values(|u: User| u@)
}

/// The in-memory store backing the service: users, tasks and the id counter.
pub struct Store {
    users: Vec<User>,
    tasks: Vec<Task>,
    next_id: u64,
}

impl View for Store {
    type V = StoreView;

    closed spec fn view(&self) -> StoreView {
        StoreView {
            users: users_view(self.users@),
            tasks: tasks_view(self.tasks@),
            next_id: self.next_id,
        }
    }
}

/// The view of a task-returning result.
pub open spec fn task_result_view(r: Result<Task, ApiError>) -> Result<TaskView, ApiError> {
    match r {
        Ok(t) => Ok(t@),
        Err(e) => Err(e),
    }
}

/// The view of an optional replacement title.
pub open spec fn opt_string_view(o: Option<String>) -> Option<Seq<char>> {
    match o {
        Some(s) => Some(s@),
        None => None,
    }
}

/// The effect of creating a task: the owner must be registered and the id
/// counter must not be exhausted (either failure is the store's); otherwise
/// a task with the next fresh id is appended and returned.
pub open spec fn create_spec(s: StoreView, owner: Seq<char>, title: Seq<char>, done: bool) -> (
    StoreView,
    Result<TaskView, ApiError>,
) {
    if !has_user(s.users, owner) {
        (s, Err(ApiError::StoreUnavailable))
    } else if s.next_id == u64::MAX {
        (s, Err(ApiError::StoreUnavailable))
    } else {
        let t = TaskView { id: s.next_id, title, done, owner };
        (
            StoreView { tasks: s.tasks.push(t), next_id: (s.next_id + 1) as u64, ..s },
            Ok(t),
        )
    }
}

/// The effect of toggling a task's done flag: `NotFound` unless the owner
/// has a task with that id; otherwise the flag is flipped in place and the
/// updated task is returned.
pub open spec fn toggle_spec(s: StoreView, owner: Seq<char>, id: u64) -> (
    StoreView,
    Result<TaskView, ApiError>,
) {
    if has_task(s.tasks, owner, id) {
        let i = task_index(s.tasks, owner, id);
        let t = TaskView { done: !s.tasks[i].done, ..s.tasks[i] };
        (StoreView { tasks: s.tasks.update(i, t), ..s }, Ok(t))
    } else {
        (s, Err(ApiError::NotFound))
    }
}

/// The effect of replacing a task's title: `BadRequest` when no replacement
/// title is given, `NotFound` unless the owner has a task with that id, and
/// otherwise the title is replaced in place and the updated task returned.
pub open spec fn update_spec(
    s: StoreView,
    owner: Seq<char>,
    id: u64,
    new_title: Option<Seq<char>>,
) -> (StoreView, Result<TaskView, ApiError>) {
    match new_title {
        None => (s, Err(ApiError::BadRequest)),
        Some(title) => {
            if has_task(s.tasks, owner, id) {
                let i = task_index(s.tasks, owner, id);
                let t = TaskView { title, ..s.tasks[i] };
                (StoreView { tasks: s.tasks.update(i, t), ..s }, Ok(t))
            } else {
                (s, Err(ApiError::NotFound))
            }
        },
    }
}

/// The effect of deleting a task: `NotFound` unless the owner has a task
/// with that id; otherwise that task alone is removed.
pub open spec fn delete_spec(s: StoreView, owner: Seq<char>, id: u64) -> (
    StoreView,
    Result<(), ApiError>,
) {
    if has_task(s.tasks, owner, id) {
        (StoreView { tasks: s.tasks.remove(task_index(s.tasks, owner, id)), ..s }, Ok(()))
    } else {
        (s, Err(ApiError::NotFound))
    }
}

/// Filtering distributes over appending one element.
pub proof fn lemma_filter_push<A>(s: Seq<A>, pred: spec_fn(A) -> bool, x: A)
    ensures
        s.push(x).filter(pred) == if pred(x) {
            s.filter(pred).push(x)
        } else {
            s.filter(pred)
        },
{
    reveal(Seq::filter);
    assert(s.push(x).drop_last() =~= s);
    assert(s.push(x).last() == x);
}

/// The effect of registering a username: a conflict if the name is taken,
/// otherwise the pair is appended and nothing else changes.
pub open spec fn register_spec(s: StoreView, username: Seq<char>, password: Seq<char>) -> (
    StoreView,
    Result<(), ApiError>,
) {
    if has_user(s.users, username) {
        (s, Err(ApiError::Conflict))
    } else {
        (StoreView { users: s.users.push((username, password)), ..s }, Ok(()))
    }
}

impl Store {
    /// An empty store.
    pub fn new() -> (s: Store)
        ensures
            s@ == (StoreView {
                users: Seq::<(Seq<char>, Seq<char>)>::empty(),
                tasks: Seq::<TaskView>::empty(),
                next_id: 0u64,
            }),
            s@.wf(),
    {
        let s = Store { users: Vec::new(), tasks: Vec::new(), next_id: 0 };
        proof {
            assert(s@ =~= StoreView {
                users: Seq::<(Seq<char>, Seq<char>)>::empty(),
                tasks: Seq::<TaskView>::empty(),
                next_id: 0u64,
            });
        }
        s
    }

    /// Whether a user of that name is registered.
    pub fn contains_user(&self, name: &String) -> (r: bool)
        ensures
            r == has_user(self@.users, name@),
    {
        let mut i: usize = 0;
        while i < self.users.len()
            invariant
                i <= self.users.len(),
                forall|k: int| 0 <= k < i ==> (#[trigger] self@.users[k]).0 != name@,
            decreases self.users.len() - i,
        {
            if self.users[i].username == *name {
                assert(self@.users[i as int].0 == name@);
                return true;
            }
            i += 1;
        }
        false
    }

    /// Registers a username/password pair; fails with `Conflict` when the
    /// username is already present, leaving the store unchanged.
    pub fn register(&mut self, username: String, password: String) -> (r: Result<(), ApiError>)
        requires
            old(self)@.wf(),
        ensures
            final(self)@.wf(),
            (final(self)@, r) == register_spec(old(self)@, username@, password@),
    {
        if self.contains_user(&username) {
            Err(ApiError::Conflict)
        } else {
            let ghost prev = self@;
            let ghost uv = username@;
            let ghost pv = password@;
            self.users.push(User { username, password });
            proof {
                assert(self@ =~= StoreView { users: prev.users.push((uv, pv)), ..prev });
                assert forall|i: int, j: int| 0 <= i < j < self@.users.len() implies (
                #[trigger] self@.users[i]).0 != (#[trigger] self@.users[j]).0 by {
                    if j == self@.users.len() - 1 {
                        assert(self@.users[i] == prev.users[i]);
                        assert(!has_user(prev.users, uv));
                    }
                }
                assert forall|i: int| 0 <= i < self@.tasks.len() implies has_user(
                    self@.users,
                    (#[trigger] self@.tasks[i]).owner,
                ) by {
                    let k = user_index(prev.users, prev.tasks[i].owner);
                    assert(has_user(prev.users, prev.tasks[i].owner));
                    assert(prev.users[k].0 == prev.tasks[i].owner);
                    assert(self@.users[k].0 == self@.tasks[i].owner);
                }
            }
            Ok(())
        }
    }

    /// The password stored for a username, if the user is registered.
    pub fn lookup_password(&self, name: &String) -> (r: Option<String>)
        requires
            self@.wf(),
        ensures
            match r {
                Some(p) => stored_password(self@.users, name@) == Some(p@),
                None => stored_password(self@.users, name@) is None,
            },
    {
        let mut i: usize = 0;
        while i < self.users.len()
            invariant
                self@.wf(),
                i <= self.users.len(),
                forall|k: int| 0 <= k < i ==> (#[trigger] self@.users[k]).0 != name@,
            decreases self.users.len() - i,
        {
            if self.users[i].username == *name {
                proof {
                    assert(self@.users[i as int].0 == name@);
                    let j = user_index(self@.users, name@);
                    assert(0 <= j < self@.users.len() && self@.users[j].0 == name@);
                    if j < i as int {
                        assert(self@.users[j].0 != self@.users[i as int].0);
                    } else if (i as int) < j {
                        assert(self@.users[i as int].0 != self@.users[j].0);
                    }
                }
                return Some(self.users[i].password.clone());
            }
            i += 1;
        }
        None
    }

    /// The caller's tasks, in insertion order.
    pub fn list_tasks(&self, owner: &String) -> (r: Vec<Task>)
        ensures
            tasks_view(r@) == owned_tasks(self@.tasks, owner@),
    {
        let mut out: Vec<Task> = Vec::new();
        let mut i: usize = 0;
        proof {
            assert(self@.tasks.take(0) =~= Seq::<TaskView>::empty());
            reveal(Seq::filter);
            assert(tasks_view(out@) =~= owned_tasks(self@.tasks.take(0), owner@));
        }
        while i < self.tasks.len()
            invariant
                i <= self.tasks.len(),
                tasks_view(out@) == owned_tasks(self@.tasks.take(i as int), owner@),
            decreases self.tasks.len() - i,
        {
            let ghost pre = self@.tasks.take(i as int);
            let ghost cur = self@.tasks[i as int];
            proof {
                lemma_filter_push(pre, |t: TaskView| t.owner == owner@, cur);
                assert(self@.tasks.take(i + 1) =~= pre.push(cur));
            }
            if self.tasks[i].owner == *owner {
                out.push(self.tasks[i].clone());
                proof {
                    assert(tasks_view(out@) =~= owned_tasks(self@.tasks.take(i + 1), owner@));
                }
            } else {
                proof {
                    assert(cur.owner != owner@);
                    assert(tasks_view(out@) =~= owned_tasks(self@.tasks.take(i + 1), owner@));
                }
            }
            i += 1;
        }
        proof {
            assert(self@.tasks.take(self.tasks.len() as int) =~= self@.tasks);
        }
        out
    }

    /// The position of the owner's task with this id, if there is one.
    fn find_task(&self, owner: &String, id: u64) -> (r: Option<usize>)
        requires
            self@.wf(),
        ensures
            match r {
                Some(i) => {
                    &&& i < self@.tasks.len()
                    &&& self@.tasks[i as int].id == id
                    &&& self@.tasks[i as int].owner == owner@
                    &&& i as int == task_index(self@.tasks, owner@, id)
                    &&& has_task(self@.tasks, owner@, id)
                },
                None => !has_task(self@.tasks, owner@, id),
            },
    {
        let mut i: usize = 0;
        while i < self.tasks.len()
            invariant
                self@.wf(),
                i <= self.tasks.len(),
                forall|k: int|
                    0 <= k < i ==> !((#[trigger] self@.tasks[k]).id == id && self@.tasks[k].owner
                        == owner@),
            decreases self.tasks.len() - i,
        {
            if self.tasks[i].id == id && self.tasks[i].owner == *owner {
                proof {
                    assert(self@.tasks[i as int].id == id && self@.tasks[i as int].owner
                        == owner@);
                    let j = task_index(self@.tasks, owner@, id);
                    assert(0 <= j < self@.tasks.len() && self@.tasks[j].id == id);
                    if j < i as int {
                        assert(self@.tasks[j].id != self@.tasks[i as int].id);
                    } else if (i as int) < j {
                        assert(self@.tasks[i as int].id != self@.tasks[j].id);
                    }
                }
                return Some(i);
            }
            i += 1;
        }
        None
    }

    /// Creates a task for a registered owner with a fresh id; the task is
    /// appended to the store and returned.
    pub fn create_task(&mut self, owner: &String, title: String, done: bool) -> (r: Result<
        Task,
        ApiError,
    >)
        requires
            old(self)@.wf(),
        ensures
            final(self)@.wf(),
            (final(self)@, task_result_view(r)) == create_spec(old(self)@, owner@, title@, done),
    {
        if !self.contains_user(owner) {
            return Err(ApiError::StoreUnavailable);
        }
        if self.next_id == u64::MAX {
            return Err(ApiError::StoreUnavailable);
        }
        let ghost prev = self@;
        let t = Task { id: self.next_id, title, done, owner: owner.clone() };
        let out = t.clone();
        self.tasks.push(t);
        self.next_id = self.next_id + 1;
        proof {
            let tv = TaskView { id: prev.next_id, title: out@.title, done, owner: owner@ };
            assert(self@ =~= StoreView {
                tasks: prev.tasks.push(tv),
                next_id: (prev.next_id + 1) as u64,
                ..prev
            });
            assert forall|a: int, b: int| 0 <= a < b < self@.tasks.len() implies (
            #[trigger] self@.tasks[a]).id != (#[trigger] self@.tasks[b]).id by {
                if b == self@.tasks.len() - 1 {
                    assert(prev.tasks[a].id < prev.next_id);
                } else {
                    assert(prev.tasks[a].id != prev.tasks[b].id);
                }
            }
            assert forall|a: int| 0 <= a < self@.tasks.len() implies (
            #[trigger] self@.tasks[a]).id < self@.next_id by {
                if a < self@.tasks.len() - 1 {
                    assert(prev.tasks[a].id < prev.next_id);
                }
            }
            assert forall|a: int| 0 <= a < self@.tasks.len() implies has_user(
                self@.users,
                (#[trigger] self@.tasks[a]).owner,
            ) by {
                if a < self@.tasks.len() - 1 {
                    assert(has_user(prev.users, prev.tasks[a].owner));
                }
            }
        }
        Ok(out)
    }

    /// Flips the done flag of the owner's task with this id.
    pub fn toggle_task(&mut self, owner: &String, id: u64) -> (r: Result<Task, ApiError>)
        requires
            old(self)@.wf(),
        ensures
            final(self)@.wf(),
            (final(self)@, task_result_view(r)) == toggle_spec(old(self)@, owner@, id),
    {
        match self.find_task(owner, id) {
            None => Err(ApiError::NotFound),
            Some(i) => {
                let ghost prev = self@;
                let mut t = self.tasks[i].clone();
                t.done = !t.done;
                let out = t.clone();
                self.tasks[i] = t;
                proof {
                    let iv = i as int;
                    let tv = TaskView { done: !prev.tasks[iv].done, ..prev.tasks[iv] };
                    assert(out@ =~= tv);
                    assert(self@ =~= StoreView { tasks: prev.tasks.update(iv, tv), ..prev });
                    lemma_wf_replace_at(prev, iv, tv);
                }
                Ok(out)
            },
        }
    }

    /// Replaces the title of the owner's task with this id; rejects a
    /// request that carries no replacement title.
    pub fn update_title(&mut self, owner: &String, id: u64, new_title: Option<String>) -> (r:
        Result<Task, ApiError>)
        requires
            old(self)@.wf(),
        ensures
            final(self)@.wf(),
            (final(self)@, task_result_view(r)) == update_spec(
                old(self)@,
                owner@,
                id,
                opt_string_view(new_title),
            ),
    {
        match new_title {
            None => Err(ApiError::BadRequest),
            Some(title) => match self.find_task(owner, id) {
                None => Err(ApiError::NotFound),
                Some(i) => {
                    let ghost prev = self@;
                    let ghost titlev = title@;
                    let mut t = self.tasks[i].clone();
                    t.title = title;
                    let out = t.clone();
                    self.tasks[i] = t;
                    proof {
                        let iv = i as int;
                        let tv = TaskView { title: titlev, ..prev.tasks[iv] };
                        assert(out@ =~= tv);
                        assert(self@ =~= StoreView { tasks: prev.tasks.update(iv, tv), ..prev });
                        lemma_wf_replace_at(prev, iv, tv);
                    }
                    Ok(out)
                },
            },
        }
    }

    /// Removes the owner's task with this id.
    pub fn delete_task(&mut self, owner: &String, id: u64) -> (r: Result<(), ApiError>)
        requires
            old(self)@.wf(),
        ensures
            final(self)@.wf(),
            (final(self)@, r) == delete_spec(old(self)@, owner@, id),
    {
        match self.find_task(owner, id) {
            None => Err(ApiError::NotFound),
            Some(i) => {
                let ghost prev = self@;
                self.tasks.remove(i);
                proof {
                    let iv = i as int;
                    assert(self@ =~= StoreView { tasks: prev.tasks.remove(iv), ..prev });
                    lemma_wf_remove_at(prev, iv);
                }
                Ok(())
            },
        }
    }
}

/// Replacing a task in place with one of the same id and owner preserves
/// well-formedness.
pub proof fn lemma_wf_replace_at(s: StoreView, i: int, t: TaskView)
    requires
        s.wf(),
        0 <= i < s.tasks.len(),
        t.id == s.tasks[i].id,
        t.owner == s.tasks[i].owner,
    ensures
        (StoreView { tasks: s.tasks.update(i, t), ..s }).wf(),
{
    let s2 = StoreView { tasks: s.tasks.update(i, t), ..s };
    assert forall|a: int, b: int| 0 <= a < b < s2.tasks.len() implies (
    #[trigger] s2.tasks[a]).id != (#[trigger] s2.tasks[b]).id by {
        assert(s.tasks[a].id != s.tasks[b].id);
    }
    assert forall|a: int| 0 <= a < s2.tasks.len() implies (#[trigger] s2.tasks[a]).id
        < s2.next_id by {
        assert(s.tasks[a].id < s.next_id);
    }
    assert forall|a: int| 0 <= a < s2.tasks.len() implies has_user(
        s2.users,
        (#[trigger] s2.tasks[a]).owner,
    ) by {
        assert(has_user(s.users, s.tasks[a].owner));
    }
}

/// Removing a task preserves well-formedness.
pub proof fn lemma_wf_remove_at(s: StoreView, i: int)
    requires
        s.wf(),
        0 <= i < s.tasks.len(),
    ensures
        (StoreView { tasks: s.tasks.remove(i), ..s }).wf(),
{
    let s2 = StoreView { tasks: s.tasks.remove(i), ..s };
    s.tasks.remove_ensures(i);
    assert forall|a: int, b: int| 0 <= a < b < s2.tasks.len() implies (
    #[trigger] s2.tasks[a]).id != (#[trigger] s2.tasks[b]).id by {
        let a0: int = if a < i {
            a
        } else {
            a + 1
        };
        let b0: int = if b < i {
            b
        } else {
            b + 1
        };
        assert(s2.tasks[a] == s.tasks[a0]);
        assert(s2.tasks[b] == s.tasks[b0]);
        assert(s.tasks[a0].id != s.tasks[b0].id);
    }
    assert forall|a: int| 0 <= a < s2.tasks.len() implies (#[trigger] s2.tasks[a]).id
        < s2.next_id by {
        let a0: int = if a < i {
            a
        } else {
            a + 1
        };
        assert(s2.tasks[a] == s.tasks[a0]);
        assert(s.tasks[a0].id < s.next_id);
    }
    assert forall|a: int| 0 <= a < s2.tasks.len() implies has_user(
        s2.users,
        (#[trigger] s2.tasks[a]).owner,
    ) by {
        let a0: int = if a < i {
            a
        } else {
            a + 1
        };
        assert(s2.tasks[a] == s.tasks[a0]);
        assert(has_user(s.users, s.tasks[a0].owner));
    }
}

} // verus!
