//! Canonical byte encodings used by the token scheme: the decimal form of
//! the numeric fields that go into the MAC input, and the base64 transport
//! form of the raw MAC bytes.

use vstd::prelude::*;

verus! {

/// A token carried in a transport encoding that could not be decoded.
#[derive(Debug, PartialEq, Eq, Structural, Clone, Copy)]
pub struct MalformedInput;

/// Canonical decimal representation of a number: ASCII digit bytes, most
/// significant first, with no leading zeros (zero itself is a single `0`).
pub open spec fn dec_rep(n: nat) -> Seq<u8>
    decreases n,
{
    if n < 10 {
        seq![(48 + n) as u8]
    } else {
        dec_rep(n / 10).push((48 + n % 10) as u8)
    }
}

/// Renders a number in its canonical decimal form.
pub fn u64_to_dec(n: u64) -> (r: Vec<u8>)
    ensures
        r@ == dec_rep(n as nat),
    decreases n,
{
    if n < 10 {
        let mut v: Vec<u8> = Vec::new();
        v.push(48 + n as u8);
        proof {
            assert(v@ =~= dec_rep(n as nat));
        }
        v
    } else {
        let mut v = u64_to_dec(n / 10);
        v.push(48 + (n % 10) as u8);
        proof {
            assert(v@ =~= dec_rep(n as nat));
        }
        v
    }
}

/// Every byte of a canonical decimal form is an ASCII digit.
pub proof fn lemma_dec_rep_digits(n: nat)
    ensures
        forall|i: int| 0 <= i < dec_rep(n).len() ==> 48 <= #[trigger] dec_rep(n)[i] <= 57,
    decreases n,
{
    if n >= 10 {
        lemma_dec_rep_digits(n / 10);
        assert forall|i: int| 0 <= i < dec_rep(n).len() implies 48 <= #[trigger] dec_rep(n)[i]
            <= 57 by {
            if i < dec_rep(n).len() - 1 {
                assert(dec_rep(n)[i] == dec_rep(n / 10)[i]);
            } else {
                assert(dec_rep(n)[i] == (48 + n % 10) as u8);
            }
        }
    }
}

/// A canonical decimal form is never empty, and has at least two digits
/// for numbers of ten and above.
pub proof fn lemma_dec_rep_len(n: nat)
    ensures
        dec_rep(n).len() >= 1,
        n >= 10 ==> dec_rep(n).len() >= 2,
    decreases n,
{
    if n >= 10 {
        lemma_dec_rep_len(n / 10);
    }
}

/// Two distinct numbers have distinct canonical decimal forms.
pub proof fn lemma_dec_rep_injective(a: nat, b: nat)
    requires
        dec_rep(a) == dec_rep(b),
    ensures
        a == b,
    decreases a,
{
    if a < 10 && b < 10 {
        assert(dec_rep(a)[0] == (48 + a) as u8);
        assert(dec_rep(b)[0] == (48 + b) as u8);
        assert((48 + a) as u8 == 48 + a);
        assert((48 + b) as u8 == 48 + b);
    } else if a < 10 {
        lemma_dec_rep_len(b);
    } else if b < 10 {
        lemma_dec_rep_len(a);
    } else {
        assert(dec_rep(a).last() == (48 + a % 10) as u8);
        assert(dec_rep(b).last() == (48 + b % 10) as u8);
        assert(a % 10 == b % 10);
        assert(dec_rep(a).drop_last() =~= dec_rep(a / 10));
        assert(dec_rep(b).drop_last() =~= dec_rep(b / 10));
        lemma_dec_rep_injective(a / 10, b / 10);
        vstd::arithmetic::div_mod::lemma_fundamental_div_mod(a as int, 10);
        vstd::arithmetic::div_mod::lemma_fundamental_div_mod(b as int, 10);
        assert(a == 10 * (a / 10) + a % 10);
        assert(b == 10 * (b / 10) + b % 10);
    }
}

/// The transport encoding of a byte string: standard base64 text.
pub uninterp spec fn b64_of(bytes: Seq<u8>) -> Seq<char>;

/// Relies on base64's standard engine `Engine::encode`: the base64 text is a
/// function of the input bytes alone.
#[verifier::external_body]
fn b64_encode(bytes: &[u8]) -> (r: String)
    ensures
        r@ == b64_of(bytes@),
{
    base64::Engine::encode(&base64::engine::general_purpose::STANDARD, bytes)
}

/// Whatever byte string the given text is the base64 encoding of, the
/// decode result restores exactly that byte string.
pub open spec fn restores_encoded_bytes(r: Option<Vec<u8>>, s: Seq<char>) -> bool {
    forall|b: Seq<u8>| #[trigger] b64_of(b) == s ==> (r matches Some(v) && v@ == b)
}

/// Relies on base64's standard engine `Engine::decode`: decoding restores
/// exactly the bytes whose encoding under the same engine is the given text.
#[verifier::external_body]
fn b64_decode(s: &str) -> (r: Option<Vec<u8>>)
    ensures
        restores_encoded_bytes(r, s@),
{
    base64::Engine::decode(&base64::engine::general_purpose::STANDARD, s).ok()
}

/// Encodes raw MAC bytes for transport inside a link.
pub fn token_to_transport(token: &[u8]) -> (r: String)
    ensures
        r@ == b64_of(token@),
{
    b64_encode(token)
}

/// Decodes a transported token back to raw MAC bytes. Undecodable text is an
/// error value, never an abort.
pub fn token_from_transport(s: &str) -> (r: Result<Vec<u8>, MalformedInput>)
    ensures
        forall|b: Seq<u8>| #[trigger] b64_of(b) == s@ ==> (r matches Ok(v) && v@ == b),
        r matches Err(e) ==> e == MalformedInput,
{
    match b64_decode(s) {
        Some(v) => Ok(v),
        None => Err(MalformedInput),
    }
}

/// Law: decoding the transport encoding of a byte string yields exactly the
/// original bytes.
pub fn transport_roundtrip(token: &[u8]) -> (r: Vec<u8>)
    ensures
        r@ == token@,
{
    let s = token_to_transport(token);
    match token_from_transport(s.as_str()) {
        Ok(v) => v,
        Err(_) => {
            proof {
                assert(b64_of(token@) == s@);
            }
            vstd::pervasive::unreached()
        },
    }
}

} // verus!
