use todo_core::{ApiError, Store};

fn store_with(users: &[(&str, &str)]) -> Store {
    let mut s = Store::new();
    for (name, pw) in users {
        let r = s.register(String::from(*name), String::from(*pw));
        assert!(r.is_ok());
    }
    s
}

#[test]
fn register_duplicate_conflicts() {
    let mut s = store_with(&[("alice", "pw1")]);
    let r = s.register(String::from("alice"), String::from("pw2"));
    assert_eq!(r, Err(ApiError::Conflict));
    // the store is unchanged: the original password still stands
    let pw = s.lookup_password(&String::from("alice"));
    assert_eq!(pw, Some(String::from("pw1")));
}

#[test]
fn register_distinct_names_ok() {
    let mut s = store_with(&[("alice", "pw1")]);
    let r = s.register(String::from("bob"), String::from("pw2"));
    assert!(r.is_ok());
    assert!(s.contains_user(&String::from("alice")));
    assert!(s.contains_user(&String::from("bob")));
    assert!(!s.contains_user(&String::from("carol")));
}

#[test]
fn create_then_list_round_trips() {
    let mut s = store_with(&[("alice", "pw1")]);
    let alice = String::from("alice");
    let t = s
        .create_task(&alice, String::from("buy milk"), false)
        .unwrap();
    assert_eq!(t.title, "buy milk");
    assert!(!t.done);
    assert_eq!(t.owner, "alice");
    let listed = s.list_tasks(&alice);
    assert_eq!(listed.len(), 1);
    assert_eq!(listed[0].id, t.id);
    assert_eq!(listed[0].title, "buy milk");
    assert!(!listed[0].done);
    assert_eq!(listed[0].owner, "alice");
}

#[test]
fn create_ids_are_unique() {
    let mut s = store_with(&[("alice", "pw1")]);
    let alice = String::from("alice");
    let a = s.create_task(&alice, String::from("one"), false).unwrap();
    let b = s.create_task(&alice, String::from("two"), true).unwrap();
    let c = s.create_task(&alice, String::from("three"), false).unwrap();
    assert_ne!(a.id, b.id);
    assert_ne!(a.id, c.id);
    assert_ne!(b.id, c.id);
}

#[test]
fn create_for_unregistered_owner_fails() {
    let mut s = store_with(&[("alice", "pw1")]);
    let r = s.create_task(&String::from("mallory"), String::from("x"), false);
    assert_eq!(r.err(), Some(ApiError::StoreUnavailable));
    assert!(s.list_tasks(&String::from("mallory")).is_empty());
}

#[test]
fn toggle_flips_once_and_restores_twice() {
    let mut s = store_with(&[("alice", "pw1")]);
    let alice = String::from("alice");
    let t = s.create_task(&alice, String::from("walk"), false).unwrap();
    let once = s.toggle_task(&alice, t.id).unwrap();
    assert!(once.done);
    let twice = s.toggle_task(&alice, t.id).unwrap();
    assert!(!twice.done);
    let listed = s.list_tasks(&alice);
    assert_eq!(listed.len(), 1);
    assert!(!listed[0].done);
    assert_eq!(listed[0].title, "walk");
}

#[test]
fn toggle_missing_task_not_found() {
    let mut s = store_with(&[("alice", "pw1")]);
    let r = s.toggle_task(&String::from("alice"), 7);
    assert_eq!(r.err(), Some(ApiError::NotFound));
}

#[test]
fn update_without_title_bad_request() {
    let mut s = store_with(&[("alice", "pw1")]);
    let alice = String::from("alice");
    let t = s.create_task(&alice, String::from("orig"), false).unwrap();
    let r = s.update_title(&alice, t.id, None);
    assert_eq!(r.err(), Some(ApiError::BadRequest));
    // the stored task is untouched
    let listed = s.list_tasks(&alice);
    assert_eq!(listed.len(), 1);
    assert_eq!(listed[0].title, "orig");
    assert!(!listed[0].done);
}

#[test]
fn update_replaces_title() {
    let mut s = store_with(&[("alice", "pw1")]);
    let alice = String::from("alice");
    let t = s.create_task(&alice, String::from("orig"), true).unwrap();
    let u = s
        .update_title(&alice, t.id, Some(String::from("new title")))
        .unwrap();
    assert_eq!(u.id, t.id);
    assert_eq!(u.title, "new title");
    assert!(u.done);
    let listed = s.list_tasks(&alice);
    assert_eq!(listed[0].title, "new title");
}

#[test]
fn update_missing_task_not_found() {
    let mut s = store_with(&[("alice", "pw1")]);
    let r = s.update_title(&String::from("alice"), 3, Some(String::from("x")));
    assert_eq!(r.err(), Some(ApiError::NotFound));
}

#[test]
fn delete_removes_task() {
    let mut s = store_with(&[("alice", "pw1")]);
    let alice = String::from("alice");
    let t = s.create_task(&alice, String::from("gone"), false).unwrap();
    let keep = s.create_task(&alice, String::from("kept"), false).unwrap();
    assert_eq!(s.delete_task(&alice, t.id), Ok(()));
    let listed = s.list_tasks(&alice);
    assert_eq!(listed.len(), 1);
    assert_eq!(listed[0].id, keep.id);
    assert_eq!(listed[0].title, "kept");
}

#[test]
fn delete_missing_task_not_found() {
    let mut s = store_with(&[("alice", "pw1")]);
    let r = s.delete_task(&String::from("alice"), 99);
    assert_eq!(r.err(), Some(ApiError::NotFound));
}

#[test]
fn owners_are_isolated() {
    let mut s = store_with(&[("alice", "pw1"), ("bob", "pw2")]);
    let alice = String::from("alice");
    let bob = String::from("bob");
    let t = s.create_task(&alice, String::from("secret"), false).unwrap();
    // bob sees nothing of alice's
    assert!(s.list_tasks(&bob).is_empty());
    // and cannot touch her task by its id
    assert_eq!(s.toggle_task(&bob, t.id).err(), Some(ApiError::NotFound));
    assert_eq!(
        s.update_title(&bob, t.id, Some(String::from("taken over"))).err(),
        Some(ApiError::NotFound)
    );
    assert_eq!(s.delete_task(&bob, t.id).err(), Some(ApiError::NotFound));
    // alice's task is exactly as she left it
    let listed = s.list_tasks(&alice);
    assert_eq!(listed.len(), 1);
    assert_eq!(listed[0].title, "secret");
    assert!(!listed[0].done);
}

#[test]
fn list_keeps_insertion_order() {
    let mut s = store_with(&[("alice", "pw1"), ("bob", "pw2")]);
    let alice = String::from("alice");
    let bob = String::from("bob");
    s.create_task(&alice, String::from("first"), false).unwrap();
    s.create_task(&bob, String::from("other"), false).unwrap();
    s.create_task(&alice, String::from("second"), true).unwrap();
    let listed = s.list_tasks(&alice);
    assert_eq!(listed.len(), 2);
    assert_eq!(listed[0].title, "first");
    assert_eq!(listed[1].title, "second");
}

#[test]
fn error_status_codes() {
    assert_eq!(ApiError::Unauthorized.status_code(), 401);
    assert_eq!(ApiError::Conflict.status_code(), 400);
    assert_eq!(ApiError::NotFound.status_code(), 404);
    assert_eq!(ApiError::BadRequest.status_code(), 400);
    assert_eq!(ApiError::StoreUnavailable.status_code(), 500);
}
