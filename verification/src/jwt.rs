//! Signed tokens, checked by the `jsonwebtoken` crate.
//!
//! A token expires, so that what a check says depends on when it is made, and on nothing else besides
//! the token and the secret: at any moment there is an oldest expiry that still passes, sixty seconds
//! before that moment, and a token passes if it is in order and expires no earlier.
use vstd::prelude::*;

verus! {

/// When a session's token expires, in seconds since 1970, where it is in order but for the expiry: it is
/// signed with the secret, makes the claims of a session and names no audience.
pub uninterp spec fn session_expiry(token: Seq<char>, secret: Seq<char>) -> Option<u64>;

/// The claims of a token that are unsigned numbers, where it is in order but for the expiry: it is signed
/// with the secret, its claims are an object with an expiry, and it names no audience.
pub uninterp spec fn signed_numbers(token: Seq<char>, secret: Seq<char>) -> Option<
    Map<Seq<char>, u64>,
>;

/// The members of an object that are unsigned numbers.
pub uninterp spec fn number_members(object: serde_json::Map<String, serde_json::Value>) -> Map<
    Seq<char>,
    u64,
>;

/// When a token with any claims expires, in seconds since 1970, where it is in order but for the expiry
/// and the expiry is an unsigned number.
pub open spec fn token_expiry(token: Seq<char>, secret: Seq<char>) -> Option<u64> {
    match signed_numbers(token, secret) {
        Some(numbers) => if numbers.contains_key("exp"@) {
            Some(numbers["exp"@])
        } else {
            None
        },
        None => None,
    }
}

/// Whether a token with the given expiry passes, where `oldest` is the oldest expiry that does. A token
/// that is not in order has no expiry and does not pass.
pub open spec fn passes(expiry: Option<u64>, oldest: u64) -> bool {
    match expiry {
        Some(e) => oldest <= e,
        None => false,
    }
}

/// Whether a token is signed with the secret and makes the claims of a session.
pub open spec fn session_claims(token: Seq<char>, secret: Seq<char>) -> bool {
    session_expiry(token, secret) is Some
}

/// `jsonwebtoken::decode` with HMAC-SHA-256 and the expiry checked, into the claims of a session. A
/// token passes if and only if it is in order and its expiry is not older than the oldest that passes at
/// the time of the call: the clock's seconds, less sixty. Which moment that is is left open.
#[verifier::external_body]
pub(crate) fn decode_session(token: &str, secret: &str) -> (r: bool)
    ensures
        exists|oldest: u64| r == #[trigger] passes(session_expiry(token@, secret@), oldest),
{
    let key = jsonwebtoken::DecodingKey::from_secret(secret.as_bytes());
    let mut v = jsonwebtoken::Validation::new(jsonwebtoken::Algorithm::HS256);
    v.validate_exp = true;
    jsonwebtoken::decode::<ginger_shared_rs::rocket_utils::Claims>(token, &key, &v).is_ok()
}

/// `jsonwebtoken::decode` with HMAC-SHA-256 and the expiry checked, into whatever claims there are. The
/// claims of a token that passes are the object that comes back. A token whose expiry is an unsigned
/// number passes if and only if it is in order and the expiry is not older than the oldest that passes
/// at the time of the call: the clock's seconds, less sixty. Which moment that is is left open.
#[verifier::external_body]
fn decode_claims(token: &str, secret: &str) -> (r: Option<serde_json::Map<String, serde_json::Value>>)
    ensures
        r matches Some(claims) ==> signed_numbers(token@, secret@) == Some(number_members(claims)),
        token_expiry(token@, secret@) is Some ==> exists|oldest: u64|
            r is Some == #[trigger] passes(token_expiry(token@, secret@), oldest),
{
    let key = jsonwebtoken::DecodingKey::from_secret(secret.as_bytes());
    let mut v = jsonwebtoken::Validation::new(jsonwebtoken::Algorithm::HS256);
    v.validate_exp = true;
    jsonwebtoken::decode::<serde_json::Map<String, serde_json::Value>>(token, &key, &v).ok().map(
        |data| data.claims,
    )
}

/// `serde_json::Map::get` and `as_u64` of the member that it gives: the member's number, where there
/// is such a member and it is an unsigned number.
#[verifier::external_body]
fn number_member(object: &serde_json::Map<String, serde_json::Value>, key: &str) -> (r: Option<u64>)
    ensures
        r == (if number_members(*object).contains_key(key@) {
            Some(number_members(*object)[key@])
        } else {
            None
        }),
{
    object.get(key).and_then(|v| v.as_u64())
}

/// Whether a token is signed with the secret and says when it expires.
pub open spec fn expiring_token(token: Seq<char>, secret: Seq<char>) -> bool {
    token_expiry(token, secret) is Some
}

/// Whether a token with any claims passes: if and only if it is in order, with an unsigned number as its
/// expiry, and the expiry is not older than the oldest that passes at the time of the call.
pub fn validate_token(token: &str, secret: &str) -> (r: bool)
    ensures
        exists|oldest: u64| r == #[trigger] passes(token_expiry(token@, secret@), oldest),
{
    assert(token_expiry(token@, secret@) is None ==> !passes(token_expiry(token@, secret@), 0));
    match decode_claims(token, secret) {
        Some(claims) => number_member(&claims, "exp").is_some(),
        None => false,
    }
}

} // verus!
