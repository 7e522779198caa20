use todo_core::{
    add_todo, authorize, current_timestamp, delete_todo, get_todos, init_store, login,
    toggle_done, update_todo, verify_token, ApiError, Store, SESSION_SECONDS,
};

const SECRET: &str = "secret_key";

fn store_with_alice() -> Store {
    let mut s = Store::new();
    s.register(String::from("alice"), String::from("pw1")).unwrap();
    s
}

#[test]
fn login_issues_token_that_verifies() {
    let s = store_with_alice();
    let now = 1_000_000;
    let token = login(&s, &String::from("alice"), &String::from("pw1"), SECRET, now).unwrap();
    // the token is a real signed token, not the username handed back
    assert_ne!(token, "alice");
    let subject = verify_token(&token, SECRET, now + 60).unwrap();
    assert_eq!(subject, "alice");
}

#[test]
fn login_wrong_password_unauthorized() {
    let s = store_with_alice();
    let r = login(&s, &String::from("alice"), &String::from("wrong"), SECRET, 0);
    assert_eq!(r.err(), Some(ApiError::Unauthorized));
}

#[test]
fn login_unknown_user_unauthorized() {
    let s = store_with_alice();
    let r = login(&s, &String::from("nobody"), &String::from("pw1"), SECRET, 0);
    assert_eq!(r.err(), Some(ApiError::Unauthorized));
}

#[test]
fn expired_token_rejected() {
    let s = store_with_alice();
    let now = 50_000;
    let token = login(&s, &String::from("alice"), &String::from("pw1"), SECRET, now).unwrap();
    // the token expires exactly 24 hours after issue
    let expiry = now + SESSION_SECONDS;
    assert!(verify_token(&token, SECRET, expiry - 1).is_ok());
    assert_eq!(
        verify_token(&token, SECRET, expiry).err(),
        Some(ApiError::Unauthorized)
    );
    assert_eq!(
        verify_token(&token, SECRET, expiry + 9_999).err(),
        Some(ApiError::Unauthorized)
    );
}

#[test]
fn token_signed_with_other_secret_rejected() {
    let s = store_with_alice();
    let token = login(&s, &String::from("alice"), &String::from("pw1"), "other_key", 0).unwrap();
    assert_eq!(
        verify_token(&token, SECRET, 60).err(),
        Some(ApiError::Unauthorized)
    );
}

#[test]
fn tampered_token_rejected() {
    let s = store_with_alice();
    let token = login(&s, &String::from("alice"), &String::from("pw1"), SECRET, 0).unwrap();
    let mut forged = token.clone();
    forged.push('x');
    assert_eq!(
        verify_token(&forged, SECRET, 60).err(),
        Some(ApiError::Unauthorized)
    );
    assert_eq!(
        verify_token("not-a-token", SECRET, 60).err(),
        Some(ApiError::Unauthorized)
    );
}

#[test]
fn authorize_reads_bearer_header() {
    let s = store_with_alice();
    let now = 10_000;
    let token = login(&s, &String::from("alice"), &String::from("pw1"), SECRET, now).unwrap();
    let header = format!("Bearer {}", token);
    let subject = authorize(Some(&header), SECRET, now + 1).unwrap();
    assert_eq!(subject, "alice");
    // a missing header, a header without the prefix, and a bare token all fail
    assert_eq!(authorize(None, SECRET, now).err(), Some(ApiError::Unauthorized));
    assert_eq!(
        authorize(Some(&token), SECRET, now).err(),
        Some(ApiError::Unauthorized)
    );
    let lower = format!("bearer {}", token);
    assert_eq!(
        authorize(Some(&lower), SECRET, now).err(),
        Some(ApiError::Unauthorized)
    );
}

#[test]
fn handlers_reject_unauthenticated_requests() {
    let mut s = store_with_alice();
    assert_eq!(
        get_todos(&s, None, SECRET, 0).err(),
        Some(ApiError::Unauthorized)
    );
    assert_eq!(
        add_todo(&mut s, Some("Bearer junk"), String::from("x"), false, SECRET, 0).err(),
        Some(ApiError::Unauthorized)
    );
    assert_eq!(
        toggle_done(&mut s, None, 0, SECRET, 0).err(),
        Some(ApiError::Unauthorized)
    );
    assert_eq!(
        update_todo(&mut s, None, 0, Some(String::from("t")), SECRET, 0).err(),
        Some(ApiError::Unauthorized)
    );
    assert_eq!(
        delete_todo(&mut s, None, 0, SECRET, 0).err(),
        Some(ApiError::Unauthorized)
    );
    // nothing was stored by the rejected create
    let token = login(&s, &String::from("alice"), &String::from("pw1"), SECRET, 0).unwrap();
    let header = format!("Bearer {}", token);
    assert!(get_todos(&s, Some(&header), SECRET, 1).unwrap().is_empty());
}

#[test]
fn full_session_scenario() {
    let mut s = init_store();
    let now = 500;
    // register alice, log in, and act through the handlers as the routes do
    s.register(String::from("alice"), String::from("pw1")).unwrap();
    let token = login(&s, &String::from("alice"), &String::from("pw1"), SECRET, now).unwrap();
    let header = format!("Bearer {}", token);
    let header = Some(header.as_str());

    let created = add_todo(&mut s, header, String::from("buy milk"), false, SECRET, now).unwrap();
    assert_eq!(created.title, "buy milk");
    assert!(!created.done);
    assert_eq!(created.owner, "alice");

    let toggled = toggle_done(&mut s, header, created.id, SECRET, now).unwrap();
    assert!(toggled.done);
    assert_eq!(toggled.id, created.id);

    delete_todo(&mut s, header, created.id, SECRET, now).unwrap();
    assert!(get_todos(&s, header, SECRET, now).unwrap().is_empty());
}

#[test]
fn update_through_handler() {
    let mut s = store_with_alice();
    let now = 42;
    let token = login(&s, &String::from("alice"), &String::from("pw1"), SECRET, now).unwrap();
    let header = format!("Bearer {}", token);
    let header = Some(header.as_str());
    let created = add_todo(&mut s, header, String::from("orig"), false, SECRET, now).unwrap();
    assert_eq!(
        update_todo(&mut s, header, created.id, None, SECRET, now).err(),
        Some(ApiError::BadRequest)
    );
    let updated =
        update_todo(&mut s, header, created.id, Some(String::from("better")), SECRET, now)
            .unwrap();
    assert_eq!(updated.title, "better");
    assert_eq!(
        update_todo(&mut s, header, created.id + 1, Some(String::from("x")), SECRET, now).err(),
        Some(ApiError::NotFound)
    );
}

#[test]
fn cross_tenant_requests_fail_through_handlers() {
    let mut s = store_with_alice();
    s.register(String::from("bob"), String::from("pw2")).unwrap();
    let now = 7;
    let alice_token = login(&s, &String::from("alice"), &String::from("pw1"), SECRET, now).unwrap();
    let bob_token = login(&s, &String::from("bob"), &String::from("pw2"), SECRET, now).unwrap();
    let alice_header = format!("Bearer {}", alice_token);
    let bob_header = format!("Bearer {}", bob_token);

    let created = add_todo(
        &mut s,
        Some(alice_header.as_str()),
        String::from("private"),
        false,
        SECRET,
        now,
    )
    .unwrap();
    assert!(get_todos(&s, Some(bob_header.as_str()), SECRET, now).unwrap().is_empty());
    assert_eq!(
        toggle_done(&mut s, Some(bob_header.as_str()), created.id, SECRET, now).err(),
        Some(ApiError::NotFound)
    );
    assert_eq!(
        delete_todo(&mut s, Some(bob_header.as_str()), created.id, SECRET, now).err(),
        Some(ApiError::NotFound)
    );
    let alices = get_todos(&s, Some(alice_header.as_str()), SECRET, now).unwrap();
    assert_eq!(alices.len(), 1);
    assert_eq!(alices[0].title, "private");
}

#[test]
fn init_store_seeds_admin() {
    let s = init_store();
    assert!(s.contains_user(&String::from("admin")));
    let token = login(&s, &String::from("admin"), &String::from("password"), SECRET, 3).unwrap();
    assert_eq!(verify_token(&token, SECRET, 4).unwrap(), "admin");
}

#[test]
fn clock_reads_a_recent_time() {
    // 2020-01-01 as a loose lower bound: the reading is a real timestamp
    assert!(current_timestamp() > 1_577_836_800);
}
