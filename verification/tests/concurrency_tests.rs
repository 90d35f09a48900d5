//! The directory behind one mutual-exclusion lock, exercised by concurrent
//! tasks: of several simultaneous signups for the same email exactly one
//! may win.

use std::sync::Arc;

use account_core::user::{StoreError, UserBuilder, UserStore};

fn build_user(name: &str, email: &str) -> account_core::user::User {
    let mut b = UserBuilder::new();
    b.with_email(email).with_name(name).with_password("pw");
    b.build().expect("all three fields are present")
}

#[test]
fn two_concurrent_adds_same_email_one_wins() {
    let rt = tokio::runtime::Builder::new_multi_thread()
        .worker_threads(2)
        .build()
        .expect("runtime");
    let store = Arc::new(tokio::sync::Mutex::new(UserStore::new()));

    let outcomes = rt.block_on(async {
        let mut handles = Vec::new();
        for name in ["First", "Second"] {
            let store = Arc::clone(&store);
            handles.push(tokio::spawn(async move {
                // Hash outside the critical section, insert inside it.
                let u = build_user(name, "a@x.com");
                let mut guard = store.lock().await;
                guard.add(u)
            }));
        }
        let mut outcomes = Vec::new();
        for h in handles {
            outcomes.push(h.await.expect("task must not panic"));
        }
        outcomes
    });

    let wins = outcomes.iter().filter(|r| r.is_ok()).count();
    let duplicates = outcomes
        .iter()
        .filter(|r| **r == Err(StoreError::DuplicateEmail))
        .count();
    assert_eq!(wins, 1);
    assert_eq!(duplicates, 1);

    let guard = store.blocking_lock();
    let with_email = guard
        .list()
        .iter()
        .filter(|u| u.email == "a@x.com")
        .count();
    assert_eq!(with_email, 1);
}

#[test]
fn many_concurrent_adds_same_email_exactly_one_wins() {
    let rt = tokio::runtime::Builder::new_multi_thread()
        .worker_threads(4)
        .build()
        .expect("runtime");
    let store = Arc::new(tokio::sync::Mutex::new(UserStore::new()));
    let n: usize = 8;

    let outcomes = rt.block_on(async {
        let mut handles = Vec::new();
        for i in 0..n {
            let store = Arc::clone(&store);
            handles.push(tokio::spawn(async move {
                let u = build_user(&format!("User{}", i), "shared@x.com");
                let mut guard = store.lock().await;
                guard.add(u)
            }));
        }
        let mut outcomes = Vec::new();
        for h in handles {
            outcomes.push(h.await.expect("task must not panic"));
        }
        outcomes
    });

    let wins = outcomes.iter().filter(|r| r.is_ok()).count();
    let duplicates = outcomes
        .iter()
        .filter(|r| **r == Err(StoreError::DuplicateEmail))
        .count();
    assert_eq!(wins, 1);
    assert_eq!(duplicates, n - 1);

    let guard = store.blocking_lock();
    assert_eq!(guard.len(), 1);
    assert_eq!(guard.list()[0].email, "shared@x.com");
}
