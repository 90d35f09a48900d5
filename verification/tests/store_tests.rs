use account_core::user::{StoreError, User, UserBuilder, UserStore};

fn user(id: u64, name: &str, email: &str) -> User {
    User {
        id,
        name: name.to_string(),
        email: email.to_string(),
        bcrypt_password: String::new(),
    }
}

#[test]
fn add_and_get() {
    let mut store = UserStore::new();
    assert!(store.add(user(5, "Eric", "eric@x.com")).is_ok());
    assert!(store.add(user(2, "Linus", "linus@x.com")).is_ok());
    assert_eq!(store.len(), 2);
    let got = store.get(5).expect("id 5 was inserted");
    assert_eq!(got.name, "Eric");
    assert_eq!(got.email, "eric@x.com");
    assert!(store.get(99).is_none());
}

#[test]
fn duplicate_email_is_refused_without_mutation() {
    let mut store = UserStore::new();
    assert!(store.add(user(1, "A", "a@x.com")).is_ok());
    let r = store.add(user(2, "Imposter", "a@x.com"));
    assert_eq!(r, Err(StoreError::DuplicateEmail));
    assert_eq!(store.len(), 1);
    assert_eq!(store.get(1).unwrap().name, "A");
    assert!(store.get(2).is_none());
}

#[test]
fn list_is_sorted_by_ascending_id() {
    let mut store = UserStore::new();
    assert!(store.add(user(30, "C", "c@x.com")).is_ok());
    assert!(store.add(user(10, "A", "a@x.com")).is_ok());
    assert!(store.add(user(20, "B", "b@x.com")).is_ok());
    let ids: Vec<u64> = store.list().iter().map(|u| u.id).collect();
    assert_eq!(ids, vec![10, 20, 30]);
}

#[test]
fn reused_identifier_replaces_the_entry() {
    let mut store = UserStore::new();
    assert!(store.add(user(1, "Old", "old@x.com")).is_ok());
    assert!(store.add(user(1, "New", "new@x.com")).is_ok());
    assert_eq!(store.len(), 1);
    assert_eq!(store.get(1).unwrap().email, "new@x.com");
}

#[test]
fn reset_password_unknown_id_is_not_found() {
    let mut store = UserStore::new();
    assert!(store.add(user(1, "A", "a@x.com")).is_ok());
    assert_eq!(store.reset_password(9, "hunter2"), Err(StoreError::NotFound));
    assert_eq!(store.get(1).unwrap().bcrypt_password, "");
}

#[test]
fn reset_password_keeps_identity_and_stores_a_hash() {
    let mut store = UserStore::new();
    assert!(store.add(user(1, "A", "a@x.com")).is_ok());
    assert!(store.reset_password(1, "hunter2").is_ok());
    let u = store.get(1).unwrap();
    assert_eq!(u.id, 1);
    assert_eq!(u.name, "A");
    assert_eq!(u.email, "a@x.com");
    // A bcrypt credential, never the plaintext.
    assert!(u.bcrypt_password.starts_with("$2"));
    assert_ne!(u.bcrypt_password, "hunter2");
}

#[test]
fn builder_refuses_an_incomplete_account() {
    let b = UserBuilder::new();
    assert!(b.build().is_none());

    let mut b = UserBuilder::new();
    b.with_email("a@x.com").with_name("A");
    assert!(b.build().is_none());

    let mut b = UserBuilder::new();
    b.with_email("a@x.com").with_password("pw");
    assert!(b.build().is_none());

    let mut b = UserBuilder::new();
    b.with_name("A").with_password("pw");
    assert!(b.build().is_none());
}

#[test]
fn builder_assembles_a_complete_account() {
    let mut b = UserBuilder::new();
    b.with_email("a@x.com").with_password("pw").with_name("A");
    let u = b.build().expect("all three fields are present");
    assert_eq!(u.name, "A");
    assert_eq!(u.email, "a@x.com");
    assert!(u.bcrypt_password.starts_with("$2"));
    assert_ne!(u.bcrypt_password, "pw");
}

#[test]
fn user_reset_password_keeps_identity() {
    let mut u = user(4, "D", "d@x.com");
    assert!(u.reset_password("new password"));
    assert_eq!(u.id, 4);
    assert_eq!(u.name, "D");
    assert_eq!(u.email, "d@x.com");
    assert!(u.bcrypt_password.starts_with("$2"));
}
