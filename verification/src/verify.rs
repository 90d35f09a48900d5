//! Issue and validation of the HMAC-based capability tokens that authorize
//! account creation and password resets. A token is the MAC, under one
//! process-wide secret, of a canonical encoding of its payload; the reset
//! payload carries its own expiry inside the MAC input, so tampering with
//! the transported expiry invalidates the signature.

use vstd::prelude::*;
use crate::codec::{dec_rep, lemma_dec_rep_digits, lemma_dec_rep_injective, u64_to_dec};
use crate::user::User;

verus! {

/// How long a reset token stays valid, in seconds (three hours).
pub const RESET_VALIDITY_SECS: u64 = 10800;

/// The keyed MAC of a message: HMAC with SHA3-256 under the given key.
pub uninterp spec fn mac_of(key: Seq<u8>, msg: Seq<u8>) -> Seq<u8>;

/// Relies on hmac's SimpleHmac over sha3's Sha3_256 (KeyInit::new_from_slice,
/// Mac::update, Mac::finalize): the MAC bytes are a function of key and
/// message alone, and SHA3-256 output is 32 bytes. HMAC accepts keys of any
/// length, so construction cannot fail.
#[verifier::external_body]
fn hmac_sha3_256(key: &[u8], msg: &[u8]) -> (r: Vec<u8>)
    ensures
        r@ == mac_of(key@, msg@),
        r@.len() == 32,
{
    let mut mac = <hmac::SimpleHmac<sha3::Sha3_256> as hmac::KeyInit>::new_from_slice(key)
        .expect("HMAC accepts keys of any length");
    hmac::Mac::update(&mut mac, msg);
    hmac::Mac::finalize(mac).into_bytes().to_vec()
}

/// Relies on Mac::verify_slice for the same HMAC instance: it succeeds
/// exactly when the tag equals the MAC of the processed input, and compares
/// the two in constant time.
#[verifier::external_body]
fn hmac_sha3_256_verify(key: &[u8], msg: &[u8], tag: &[u8]) -> (r: bool)
    ensures
        r == (tag@ == mac_of(key@, msg@)),
{
    let mut mac = <hmac::SimpleHmac<sha3::Sha3_256> as hmac::KeyInit>::new_from_slice(key)
        .expect("HMAC accepts keys of any length");
    hmac::Mac::update(&mut mac, msg);
    hmac::Mac::verify_slice(mac, tag).is_ok()
}

/// Relies on chrono's Utc::now: the current time in seconds of the Unix
/// epoch. Nothing is promised of the clock's value.
#[verifier::external_body]
fn now_unix() -> i64 {
    chrono::Utc::now().timestamp()
}

/// The clock clamped to the unsigned second count the token scheme works
/// in; a clock before the epoch reads as zero, which only ever makes
/// verification stricter.
fn now_seconds() -> u64 {
    let t = now_unix();
    if t < 0 {
        0
    } else {
        t as u64
    }
}

/// The process-wide keyed-MAC secret: created once at startup and passed by
/// shared reference into every issue and verify call. Rotating it
/// invalidates every outstanding token.
pub struct Secret {
    key: Vec<u8>,
}

impl View for Secret {
    type V = Seq<u8>;

    closed spec fn view(&self) -> Seq<u8> {
        self.key@
    }
}

impl Secret {
    /// Wraps the provisioned secret bytes.
    pub fn new(key: Vec<u8>) -> (r: Secret)
        ensures
            r@ == key@,
    {
        Secret { key }
    }
}

/// The MAC input of a create token: the UTF-8 bytes of the email it is
/// bound to.
pub open spec fn create_msg(email: Seq<char>) -> Seq<u8> {
    vstd::utf8::encode_utf8(email)
}

/// The MAC input of a reset token: the canonical decimal form of the
/// account identifier, a `:` separator, then the canonical decimal form of
/// the expiry second. Fixed so that verification recomputes byte-identical
/// input.
pub open spec fn reset_msg(id: u64, expires: u64) -> Seq<u8> {
    dec_rep(id as nat) + seq![58u8] + dec_rep(expires as nat)
}

/// A create token is valid for an email exactly when its tag is the MAC of
/// that email's message.
pub open spec fn create_token_valid(key: Seq<u8>, email: Seq<char>, tag: Seq<u8>) -> bool {
    tag == mac_of(key, create_msg(email))
}

/// A reset token is valid for an account at a given time exactly when the
/// time lies strictly before the expiry and the tag is the MAC of the
/// account's message. An expiry equal to "now" already counts as expired.
pub open spec fn reset_token_valid(
    key: Seq<u8>,
    id: u64,
    expires: u64,
    tag: Seq<u8>,
    now: u64,
) -> bool {
    now < expires && tag == mac_of(key, reset_msg(id, expires))
}

/// The expiry granted at issue time: three hours from now, saturating at
/// the largest representable second.
pub open spec fn expiry_of(now: u64) -> u64 {
    if now + RESET_VALIDITY_SECS > u64::MAX {
        u64::MAX
    } else {
        (now + RESET_VALIDITY_SECS) as u64
    }
}

fn expiry_at(now: u64) -> (r: u64)
    ensures
        r == expiry_of(now),
{
    if now > u64::MAX - RESET_VALIDITY_SECS {
        u64::MAX
    } else {
        now + RESET_VALIDITY_SECS
    }
}

/// Builds the reset-token MAC input.
fn reset_msg_bytes(id: u64, expires: u64) -> (r: Vec<u8>)
    ensures
        r@ == reset_msg(id, expires),
{
    let mut v = u64_to_dec(id);
    v.push(58);
    let mut e = u64_to_dec(expires);
    v.append(&mut e);
    proof {
        assert(v@ =~= reset_msg(id, expires));
    }
    v
}

/// A create link's payload: the email the capability is bound to, and the
/// MAC tag. Long-lived; no expiry.
pub struct CreateParams {
    pub email: String,
    pub token: Vec<u8>,
}

impl CreateParams {
    /// Mints a create token for this email.
    pub fn issue(secret: &Secret, email: &str) -> (r: CreateParams)
        ensures
            r.email@ == email@,
            create_token_valid(secret@, email@, r.token@),
    {
        let token = hmac_sha3_256(secret.key.as_slice(), email.as_bytes());
        CreateParams { email: email.to_owned(), token }
    }

    /// The email embedded in the signed payload: the sole source of truth
    /// for which email a verified create action applies to.
    pub fn email(&self) -> (r: &str)
        ensures
            r@ == self.email@,
    {
        self.email.as_str()
    }

    /// Recomputes the MAC for the candidate email and compares it to the
    /// transported tag in constant time; true exactly when they agree.
    pub fn verify(secret: &Secret, email: &str, params: &CreateParams) -> (r: bool)
        ensures
            r == create_token_valid(secret@, email@, params.token@),
    {
        hmac_sha3_256_verify(secret.key.as_slice(), email.as_bytes(), params.token.as_slice())
    }
}

/// A reset link's payload: the account identifier, the plaintext expiry
/// (also bound inside the MAC input), and the MAC tag.
pub struct ResetParams {
    pub user_id: u64,
    pub expires: u64,
    pub token: Vec<u8>,
}

impl ResetParams {
    /// The account identifier the link names; lookups use it, but
    /// verification recomputes the MAC from the looked-up account itself.
    pub fn user_id(&self) -> (r: u64)
        ensures
            r == self.user_id,
    {
        self.user_id
    }

    /// Mints a reset token for this account, expiring three hours after the
    /// given time.
    pub fn issue_at(secret: &Secret, user: &User, now: u64) -> (r: ResetParams)
        ensures
            r.user_id == user.id,
            r.expires == expiry_of(now),
            r.token@ == mac_of(secret@, reset_msg(user.id, r.expires)),
    {
        let expires = expiry_at(now);
        let msg = reset_msg_bytes(user.id, expires);
        let token = hmac_sha3_256(secret.key.as_slice(), msg.as_slice());
        ResetParams { user_id: user.id, expires, token }
    }

    /// Mints a reset token expiring three hours from the current clock.
    pub fn issue(secret: &Secret, user: &User) -> (r: ResetParams)
        ensures
            r.user_id == user.id,
            r.token@ == mac_of(secret@, reset_msg(user.id, r.expires)),
    {
        let now = now_seconds();
        Self::issue_at(secret, user, now)
    }

    /// Validates the token for the looked-up account at the given time:
    /// false from the expiry on (fail closed), otherwise the MAC recomputed
    /// from the account's own identifier — never a client-echoed one — must
    /// match the tag, compared in constant time.
    pub fn verify_at(secret: &Secret, user: &User, params: &ResetParams, now: u64) -> (r: bool)
        ensures
            r == reset_token_valid(secret@, user.id, params.expires, params.token@, now),
    {
        if now >= params.expires {
            return false;
        }
        let msg = reset_msg_bytes(user.id, params.expires);
        hmac_sha3_256_verify(secret.key.as_slice(), msg.as_slice(), params.token.as_slice())
    }

    /// Validates the token against the current clock. Whatever the clock
    /// read, a true result means the tag is the genuine MAC for this
    /// account and the transported expiry.
    pub fn verify(secret: &Secret, user: &User, params: &ResetParams) -> (r: bool)
        ensures
            r ==> params.token@ == mac_of(secret@, reset_msg(user.id, params.expires)),
            exists|now: u64|
                r == reset_token_valid(secret@, user.id, params.expires, params.token@, now),
    {
        let now = now_seconds();
        let r = Self::verify_at(secret, user, params, now);
        proof {
            assert(r == reset_token_valid(secret@, user.id, params.expires, params.token@, now));
        }
        r
    }
}

/// Law: a freshly issued reset token verifies against its own account
/// immediately after issuance. (Only a clock already at the largest
/// representable second is left out: there the saturated expiry equals
/// "now" and the token is born expired.)
pub proof fn lemma_fresh_reset_verifies(key: Seq<u8>, id: u64, now: u64)
    requires
        now < u64::MAX,
    ensures
        reset_token_valid(key, id, expiry_of(now), mac_of(key, reset_msg(id, expiry_of(now))), now),
{
}

/// Law: a reset token is rejected from the moment its expiry is reached,
/// whatever its tag; an expiry exactly equal to "now" already counts as
/// expired.
pub proof fn lemma_expired_reset_rejected(
    key: Seq<u8>,
    id: u64,
    expires: u64,
    tag: Seq<u8>,
    now: u64,
)
    requires
        now >= expires,
    ensures
        !reset_token_valid(key, id, expires, tag, now),
{
}

/// The MAC inputs of two reset tokens differ whenever the account
/// identifiers differ: the canonical encoding is injective.
pub proof fn lemma_reset_msg_injective(a_id: u64, b_id: u64, expires: u64)
    requires
        a_id != b_id,
    ensures
        reset_msg(a_id, expires) != reset_msg(b_id, expires),
{
    let a = dec_rep(a_id as nat);
    let b = dec_rep(b_id as nat);
    let e = dec_rep(expires as nat);
    let m1 = reset_msg(a_id, expires);
    let m2 = reset_msg(b_id, expires);
    lemma_dec_rep_digits(a_id as nat);
    lemma_dec_rep_digits(b_id as nat);
    if m1 == m2 {
        let la = a.len() as int;
        let lb = b.len() as int;
        assert(m1[la] == 58);
        assert(m2[lb] == 58);
        if la < lb {
            assert(m2[la] == b[la]);
            assert(b[la] <= 57);
        } else if lb < la {
            assert(m1[lb] == a[lb]);
            assert(a[lb] <= 57);
        } else {
            assert(a =~= b) by {
                assert forall|i: int| 0 <= i < la implies a[i] == b[i] by {
                    assert(m1[i] == a[i]);
                    assert(m2[i] == b[i]);
                }
            }
            lemma_dec_rep_injective(a_id as nat, b_id as nat);
        }
    }
}

/// Law: no cross-account substitution. A reset token minted for one account
/// never verifies against an account with a different identifier, even with
/// the same transported expiry — unless the MAC itself collides on the two
/// messages, which are always distinct and which the scheme assumes the MAC
/// keeps apart.
pub proof fn lemma_reset_no_cross_account(
    key: Seq<u8>,
    a_id: u64,
    b_id: u64,
    expires: u64,
    now: u64,
)
    requires
        a_id != b_id,
        mac_of(key, reset_msg(a_id, expires)) != mac_of(key, reset_msg(b_id, expires)),
    ensures
        !reset_token_valid(key, b_id, expires, mac_of(key, reset_msg(a_id, expires)), now),
{
    lemma_reset_msg_injective(a_id, b_id, expires);
}

/// The MAC inputs of two create tokens differ whenever the emails differ:
/// the UTF-8 encoding is injective.
pub proof fn lemma_create_msg_injective(e1: Seq<char>, e2: Seq<char>)
    requires
        e1 != e2,
    ensures
        create_msg(e1) != create_msg(e2),
{
    vstd::utf8::encode_utf8_decode_utf8(e1);
    vstd::utf8::encode_utf8_decode_utf8(e2);
}

/// Law: a create token binds exactly one email. It verifies against the
/// email it was issued for, and fails against any other email — unless the
/// MAC itself collides on the two messages, which are always distinct and
/// which the scheme assumes the MAC keeps apart.
pub proof fn lemma_create_token_binds_email(key: Seq<u8>, e1: Seq<char>, e2: Seq<char>)
    requires
        e1 != e2,
        mac_of(key, create_msg(e1)) != mac_of(key, create_msg(e2)),
    ensures
        create_token_valid(key, e1, mac_of(key, create_msg(e1))),
        !create_token_valid(key, e2, mac_of(key, create_msg(e1))),
{
    lemma_create_msg_injective(e1, e2);
}

} // verus!
