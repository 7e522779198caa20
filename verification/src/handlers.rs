use vstd::prelude::*;

use crate::auth::{auth_user, authorize, opt_str_view};
use crate::error::ApiError;
use crate::store::{
    create_spec, delete_spec, opt_string_view, owned_tasks, task_result_view, tasks_view,
    toggle_spec, update_spec, Store, Task, TaskView,
};

verus! {

/// A fresh store seeded with the default `admin` user, as store
/// initialisation does.
pub fn init_store() -> (s: Store)
    ensures
        s@.wf(),
        s@.users == seq![("admin"@, "password"@)],
        s@.tasks == Seq::<TaskView>::empty(),
        s@.next_id == 0u64,
{
    let mut s = Store::new();
    let ghost empty = s@;
    let seeded = s.register(String::from_str("admin"), String::from_str("password"));
    proof {
        assert(!crate::store::has_user(empty.users, "admin"@));
        assert(seeded is Ok);
        assert(s@.users =~= seq![("admin"@, "password"@)]);
    }
    s
}

/// Lists the authenticated caller's tasks; a request that does not
/// authenticate fails with `Unauthorized` before the store is read.
pub fn get_todos(store: &Store, header: Option<&str>, secret: &str, now: u64) -> (r: Result<
    Vec<Task>,
    ApiError,
>)
    ensures
        match auth_user(opt_str_view(header), secret@, now) {
            Some(u) => r matches Ok(v) && tasks_view(v@) == owned_tasks(store@.tasks, u),
            None => r == Err::<Vec<Task>, ApiError>(ApiError::Unauthorized),
        },
{
    match authorize(header, secret, now) {
        Err(e) => Err(e),
        Ok(username) => Ok(store.list_tasks(&username)),
    }
}

/// Creates a task owned by the authenticated caller; a request that does
/// not authenticate fails with `Unauthorized` and changes nothing.
pub fn add_todo(
    store: &mut Store,
    header: Option<&str>,
    title: String,
    done: bool,
    secret: &str,
    now: u64,
) -> (r: Result<Task, ApiError>)
    requires
        old(store)@.wf(),
    ensures
        final(store)@.wf(),
        match auth_user(opt_str_view(header), secret@, now) {
            Some(u) => (final(store)@, task_result_view(r)) == create_spec(
                old(store)@,
                u,
                title@,
                done,
            ),
            None => r == Err::<Task, ApiError>(ApiError::Unauthorized) && final(store)@ == old(
                store,
            )@,
        },
{
    match authorize(header, secret, now) {
        Err(e) => Err(e),
        Ok(username) => store.create_task(&username, title, done),
    }
}

/// Flips the done flag of the authenticated caller's task; a request that
/// does not authenticate fails with `Unauthorized` and changes nothing.
pub fn toggle_done(store: &mut Store, header: Option<&str>, id: u64, secret: &str, now: u64) -> (r:
    Result<Task, ApiError>)
    requires
        old(store)@.wf(),
    ensures
        final(store)@.wf(),
        match auth_user(opt_str_view(header), secret@, now) {
            Some(u) => (final(store)@, task_result_view(r)) == toggle_spec(old(store)@, u, id),
            None => r == Err::<Task, ApiError>(ApiError::Unauthorized) && final(store)@ == old(
                store,
            )@,
        },
{
    match authorize(header, secret, now) {
        Err(e) => Err(e),
        Ok(username) => store.toggle_task(&username, id),
    }
}

/// Replaces the title of the authenticated caller's task; a request that
/// does not authenticate fails with `Unauthorized` and changes nothing.
pub fn update_todo(
    store: &mut Store,
    header: Option<&str>,
    id: u64,
    new_title: Option<String>,
    secret: &str,
    now: u64,
) -> (r: Result<Task, ApiError>)
    requires
        old(store)@.wf(),
    ensures
        final(store)@.wf(),
        match auth_user(opt_str_view(header), secret@, now) {
            Some(u) => (final(store)@, task_result_view(r)) == update_spec(
                old(store)@,
                u,
                id,
                opt_string_view(new_title),
            ),
            None => r == Err::<Task, ApiError>(ApiError::Unauthorized) && final(store)@ == old(
                store,
            )@,
        },
{
    match authorize(header, secret, now) {
        Err(e) => Err(e),
        Ok(username) => store.update_title(&username, id, new_title),
    }
}

/// Deletes the authenticated caller's task; a request that does not
/// authenticate fails with `Unauthorized` and changes nothing.
pub fn delete_todo(store: &mut Store, header: Option<&str>, id: u64, secret: &str, now: u64) -> (r:
    Result<(), ApiError>)
    requires
        old(store)@.wf(),
    ensures
        final(store)@.wf(),
        match auth_user(opt_str_view(header), secret@, now) {
            Some(u) => (final(store)@, r) == delete_spec(old(store)@, u, id),
            None => r == Err::<(), ApiError>(ApiError::Unauthorized) && final(store)@ == old(
                store,
            )@,
        },
{
    match authorize(header, secret, now) {
        Err(e) => Err(e),
        Ok(username) => store.delete_task(&username, id),
    }
}

} // verus!
