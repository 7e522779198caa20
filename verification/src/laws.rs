use vstd::prelude::*;

use crate::auth::{auth_user, bearer_of, decoded_claims};
use crate::error::ApiError;
use crate::store::{
    create_spec, delete_spec, has_task, has_user, owned_tasks, register_spec, task_index,
    toggle_spec, update_spec, StoreView, TaskView,
};

verus! {

/// A token carried in a `Bearer` header authenticates exactly its subject,
/// and exactly until its expiry: with claims `(sub, exp)` under the secret
/// (as a successful login's token has, with `exp` 24 hours after issue),
/// the request authenticates as `sub` at every time before `exp` and as
/// nobody from `exp` on.
pub proof fn lemma_token_authenticates(
    header: Seq<char>,
    token: Seq<char>,
    secret: Seq<char>,
    sub: Seq<char>,
    exp: u64,
    at: u64,
)
    requires
        header == "Bearer "@ + token,
        decoded_claims(token, secret) == Some((sub, exp)),
    ensures
        at < exp ==> auth_user(Some(header), secret, at) == Some(sub),
        at >= exp ==> auth_user(Some(header), secret, at) is None,
{
    reveal_strlit("Bearer ");
    assert(header.len() >= 7);
    assert(header[0] == 'B' && header[1] == 'e' && header[2] == 'a' && header[3] == 'r'
        && header[4] == 'e' && header[5] == 'r' && header[6] == ' ');
    assert(header.skip(7) =~= token);
    assert(bearer_of(header) == Some(token));
}

/// Registering a username twice cannot succeed twice: once a registration
/// has succeeded, a second registration of the same name fails with
/// `Conflict` and leaves the store exactly as the first left it.
pub proof fn lemma_register_twice_conflicts(
    s: StoreView,
    username: Seq<char>,
    p1: Seq<char>,
    p2: Seq<char>,
)
    requires
        register_spec(s, username, p1).1 is Ok,
    ensures
        register_spec(register_spec(s, username, p1).0, username, p2) == (
            register_spec(s, username, p1).0,
            Err::<(), ApiError>(ApiError::Conflict),
        ),
{
    let s1 = register_spec(s, username, p1).0;
    assert(s1.users == s.users.push((username, p1)));
    assert(s1.users[s.users.len() as int].0 == username);
    assert(has_user(s1.users, username));
}

/// Owners are isolated from one another: a task some owner has never shows
/// in another owner's list, and the other owner's toggle, retitle and
/// delete against its id fail with `NotFound` and change nothing.
pub proof fn lemma_owner_isolation(
    s: StoreView,
    owner: Seq<char>,
    other: Seq<char>,
    id: u64,
    new_title: Seq<char>,
)
    requires
        s.wf(),
        owner != other,
        has_task(s.tasks, owner, id),
    ensures
        forall|i: int|
            0 <= i < owned_tasks(s.tasks, other).len() ==> (#[trigger] owned_tasks(
                s.tasks,
                other,
            )[i]).owner != owner,
        toggle_spec(s, other, id) == (s, Err::<TaskView, ApiError>(ApiError::NotFound)),
        update_spec(s, other, id, Some(new_title)) == (
            s,
            Err::<TaskView, ApiError>(ApiError::NotFound),
        ),
        delete_spec(s, other, id) == (s, Err::<(), ApiError>(ApiError::NotFound)),
{
    assert forall|i: int| 0 <= i < owned_tasks(s.tasks, other).len() implies (
    #[trigger] owned_tasks(s.tasks, other)[i]).owner != owner by {
        s.tasks.lemma_filter_pred(|t: TaskView| t.owner == other, i);
    }
    let k = choose|k: int| 0 <= k < s.tasks.len() && s.tasks[k].id == id && s.tasks[k].owner
        == owner;
    assert(s.tasks[k].id == id && s.tasks[k].owner == owner);
    if has_task(s.tasks, other, id) {
        let j = choose|j: int| 0 <= j < s.tasks.len() && s.tasks[j].id == id && s.tasks[j].owner
            == other;
        if j < k {
            assert(s.tasks[j].id != s.tasks[k].id);
        } else if k < j {
            assert(s.tasks[k].id != s.tasks[j].id);
        }
    }
}

/// A successful create round-trips through list: the returned task carries
/// exactly the given title and done flag, the owner's list afterwards is
/// the old list with that task appended, every other owner's list is
/// untouched, and the fresh id differs from every id already stored.
pub proof fn lemma_create_then_list(s: StoreView, owner: Seq<char>, title: Seq<char>, done: bool)
    requires
        s.wf(),
        create_spec(s, owner, title, done).1 is Ok,
    ensures
        ({
            let s1 = create_spec(s, owner, title, done).0;
            let t = create_spec(s, owner, title, done).1->Ok_0;
            &&& t.title == title
            &&& t.done == done
            &&& t.owner == owner
            &&& owned_tasks(s1.tasks, owner) == owned_tasks(s.tasks, owner).push(t)
            &&& forall|o: Seq<char>|
                o != owner ==> #[trigger] owned_tasks(s1.tasks, o) == owned_tasks(s.tasks, o)
            &&& forall|i: int| 0 <= i < s.tasks.len() ==> (#[trigger] s.tasks[i]).id != t.id
        }),
{
    let s1 = create_spec(s, owner, title, done).0;
    let t = create_spec(s, owner, title, done).1->Ok_0;
    crate::store::lemma_filter_push(s.tasks, |x: TaskView| x.owner == owner, t);
    assert forall|o: Seq<char>| o != owner implies #[trigger] owned_tasks(s1.tasks, o)
        == owned_tasks(s.tasks, o) by {
        crate::store::lemma_filter_push(s.tasks, |x: TaskView| x.owner == o, t);
    }
}

/// Ids stay distinct over repeated creates: two consecutive successful
/// creates, whoever the owners, return tasks with different ids.
pub proof fn lemma_create_ids_distinct(
    s: StoreView,
    o1: Seq<char>,
    t1: Seq<char>,
    d1: bool,
    o2: Seq<char>,
    t2: Seq<char>,
    d2: bool,
)
    requires
        create_spec(s, o1, t1, d1).1 is Ok,
        create_spec(create_spec(s, o1, t1, d1).0, o2, t2, d2).1 is Ok,
    ensures
        create_spec(s, o1, t1, d1).1->Ok_0.id != create_spec(
            create_spec(s, o1, t1, d1).0,
            o2,
            t2,
            d2,
        ).1->Ok_0.id,
{
}

/// One toggle flips the task's done flag and changes nothing else of it; a
/// second toggle of the same task restores the store exactly.
pub proof fn lemma_toggle_twice_restores(s: StoreView, owner: Seq<char>, id: u64)
    requires
        s.wf(),
        has_task(s.tasks, owner, id),
    ensures
        ({
            let i = task_index(s.tasks, owner, id);
            let r1 = toggle_spec(s, owner, id);
            let r2 = toggle_spec(r1.0, owner, id);
            &&& r1.1 matches Ok(u1) && u1 == (TaskView { done: !s.tasks[i].done, ..s.tasks[i] })
            &&& r2.1 matches Ok(u2) && u2 == s.tasks[i]
            &&& r2.0 == s
        }),
{
    let i = task_index(s.tasks, owner, id);
    assert(0 <= i < s.tasks.len() && s.tasks[i].id == id && s.tasks[i].owner == owner);
    let u1 = TaskView { done: !s.tasks[i].done, ..s.tasks[i] };
    let s1 = toggle_spec(s, owner, id).0;
    assert(s1.tasks == s.tasks.update(i, u1));
    assert(s1.tasks[i].id == id && s1.tasks[i].owner == owner);
    assert(has_task(s1.tasks, owner, id));
    let j = task_index(s1.tasks, owner, id);
    assert(0 <= j < s1.tasks.len() && s1.tasks[j].id == id && s1.tasks[j].owner == owner);
    if j != i {
        assert(s1.tasks[j] == s.tasks[j]);
        if j < i {
            assert(s.tasks[j].id != s.tasks[i].id);
        } else {
            assert(s.tasks[i].id != s.tasks[j].id);
        }
    }
    assert(j == i);
    let u2 = TaskView { done: !s1.tasks[i].done, ..s1.tasks[i] };
    assert(u2 =~= s.tasks[i]);
    assert(s.tasks.update(i, u1).update(i, u2) =~= s.tasks);
    assert(toggle_spec(s1, owner, id).0 =~= s);
}

/// An update that carries no replacement title is rejected with
/// `BadRequest` and leaves the store unchanged, whatever the id.
pub proof fn lemma_update_without_title_rejected(s: StoreView, owner: Seq<char>, id: u64)
    ensures
        update_spec(s, owner, id, None) == (s, Err::<TaskView, ApiError>(ApiError::BadRequest)),
{
}

} // verus!
