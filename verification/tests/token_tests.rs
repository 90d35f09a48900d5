use account_core::codec::{token_from_transport, token_to_transport, transport_roundtrip, MalformedInput};
use account_core::user::User;
use account_core::verify::{CreateParams, ResetParams, Secret, RESET_VALIDITY_SECS};

fn secret() -> Secret {
    Secret::new(b"my super secret key".to_vec())
}

fn user(id: u64, name: &str, email: &str) -> User {
    User {
        id,
        name: name.to_string(),
        email: email.to_string(),
        bcrypt_password: String::new(),
    }
}

#[test]
fn create_token_verifies_against_own_email() {
    let s = secret();
    let params = CreateParams::issue(&s, "someone@example.com");
    assert_eq!(params.email(), "someone@example.com");
    assert!(CreateParams::verify(&s, "someone@example.com", &params));
}

#[test]
fn create_token_fails_against_other_email() {
    let s = secret();
    let params = CreateParams::issue(&s, "someone@example.com");
    assert!(!CreateParams::verify(&s, "someone.else@example.com", &params));
    assert!(!CreateParams::verify(&s, "", &params));
}

#[test]
fn create_token_fails_under_other_secret() {
    let s = secret();
    let other = Secret::new(b"another secret".to_vec());
    let params = CreateParams::issue(&s, "someone@example.com");
    assert!(!CreateParams::verify(&other, "someone@example.com", &params));
}

#[test]
fn fresh_reset_token_verifies() {
    let s = secret();
    let a = user(1, "A", "a@x.com");
    let t0: u64 = 1_000_000;
    let params = ResetParams::issue_at(&s, &a, t0);
    assert_eq!(params.user_id(), 1);
    assert_eq!(params.expires, t0 + RESET_VALIDITY_SECS);
    assert!(ResetParams::verify_at(&s, &a, &params, t0));
}

#[test]
fn reset_token_three_hour_window() {
    // Issued at T0 with three-hour validity: alive at T0+2h59m, dead at
    // T0+3h01m.
    let s = secret();
    let a = user(1, "A", "a@x.com");
    let t0: u64 = 1_000_000;
    let params = ResetParams::issue_at(&s, &a, t0);
    assert!(ResetParams::verify_at(&s, &a, &params, t0 + 2 * 3600 + 59 * 60));
    assert!(!ResetParams::verify_at(&s, &a, &params, t0 + 3 * 3600 + 60));
}

#[test]
fn reset_token_expiry_boundary_is_rejected() {
    // An expiry exactly equal to "now" counts as expired.
    let s = secret();
    let a = user(1, "A", "a@x.com");
    let t0: u64 = 1_000_000;
    let params = ResetParams::issue_at(&s, &a, t0);
    assert!(!ResetParams::verify_at(&s, &a, &params, params.expires));
}

#[test]
fn reset_token_fails_against_other_account() {
    // The raw token bytes are a perfectly valid tag for account A; checked
    // against account B they must still be refused.
    let s = secret();
    let a = user(1, "A", "a@x.com");
    let b = user(2, "B", "b@x.com");
    let t0: u64 = 1_000_000;
    let params = ResetParams::issue_at(&s, &a, t0);
    assert!(ResetParams::verify_at(&s, &a, &params, t0));
    assert!(!ResetParams::verify_at(&s, &b, &params, t0));
}

#[test]
fn reset_token_tampered_expiry_fails() {
    let s = secret();
    let a = user(1, "A", "a@x.com");
    let t0: u64 = 1_000_000;
    let mut params = ResetParams::issue_at(&s, &a, t0);
    params.expires += 3600;
    assert!(!ResetParams::verify_at(&s, &a, &params, t0));
}

#[test]
fn reset_token_tampered_tag_fails() {
    let s = secret();
    let a = user(1, "A", "a@x.com");
    let t0: u64 = 1_000_000;
    let mut params = ResetParams::issue_at(&s, &a, t0);
    params.token[0] ^= 1;
    assert!(!ResetParams::verify_at(&s, &a, &params, t0));
}

#[test]
fn issue_and_verify_with_live_clock() {
    let s = secret();
    let a = user(7, "A", "a@x.com");
    let params = ResetParams::issue(&s, &a);
    assert!(ResetParams::verify(&s, &a, &params));
}

#[test]
fn transport_encoding_round_trips() {
    let s = secret();
    let params = CreateParams::issue(&s, "someone@example.com");
    let text = token_to_transport(&params.token);
    let back = token_from_transport(&text).expect("the encoding of real bytes must decode");
    assert_eq!(back, params.token);
    assert_eq!(transport_roundtrip(&params.token), params.token);
}

#[test]
fn transport_rejects_malformed_text() {
    assert_eq!(token_from_transport("%%% not base64 %%%"), Err(MalformedInput));
}
