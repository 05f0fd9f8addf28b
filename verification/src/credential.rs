//! Password hashing and session tokens: the hashing is bcrypt's and the
//! signing is jsonwebtoken's.

use crate::error::StoreError;
use crate::outside::{
    bcrypt_hash, bcrypt_verdict, bcrypt_verify, hs256_token, is_bcrypt_shaped, jwt_encode,
    uuid_display, uuid_text,
};
use crate::text::same_text;
use vstd::prelude::*;

verus! {

/// How long a token stays valid, in seconds: one day.
pub const TOKEN_LIFETIME: i64 = 86_400;

/// The name of the claim that holds a token's expiry.
pub const CLAIM_EXPIRY: &'static str = "exp";

/// The name of the claim that holds the time at which a token was issued.
pub const CLAIM_ISSUED_AT: &'static str = "iat";

/// The name of the claim that holds the user's id.
pub const CLAIM_USER_ID: &'static str = "user_id";

/// Whether `hash` is a well-formed bcrypt hash of `password`.
pub open spec fn password_matches(password: Seq<char>, hash: Seq<char>) -> bool {
    bcrypt_verdict(password, hash) == Some(true)
}

/// The expiry of a token issued at `issued_at`: a lifetime later, or the
/// last representable second where that would overflow.
pub open spec fn expiry(issued_at: i64) -> i64 {
    if issued_at > i64::MAX - TOKEN_LIFETIME {
        i64::MAX
    } else {
        (issued_at + TOKEN_LIFETIME) as i64
    }
}

/// The token whose claims are the expiry, `issued_at`, and the text of
/// `user_id`, signed with `secret`.
pub open spec fn token_for(user_id: u128, issued_at: i64, secret: Seq<u8>) -> Seq<char> {
    hs256_token(
        CLAIM_EXPIRY@,
        expiry(issued_at),
        CLAIM_ISSUED_AT@,
        issued_at,
        CLAIM_USER_ID@,
        uuid_text(user_id),
        secret,
    )
}

/// What [`hash_outcome`] returns: the hash, unless the hasher failed or
/// the hash is the plaintext itself.
pub open spec fn spec_hash_outcome<E>(plaintext: Seq<char>, outcome: Result<String, E>) -> Result<
    Seq<char>,
    StoreError,
> {
    match outcome {
        Ok(h) => if h@ == plaintext {
            Err(StoreError::Unexpected)
        } else {
            Ok(h@)
        },
        Err(_) => Err(StoreError::Unexpected),
    }
}

/// The view of a result that carries a string.
pub open spec fn text_result(r: Result<String, StoreError>) -> Result<Seq<char>, StoreError> {
    match r {
        Ok(s) => Ok(s@),
        Err(e) => Err(e),
    }
}

/// Turns the hasher's outcome for `plaintext` into the library's: the hash
/// as it came, or `Unexpected` where the hasher failed and where the hash
/// is the plaintext itself, which is withheld.
pub fn hash_outcome(plaintext: &str, outcome: Result<String, bcrypt::BcryptError>) -> (r: Result<
    String,
    StoreError,
>)
    ensures
        text_result(r) == spec_hash_outcome(plaintext@, outcome),
{
    match outcome {
        Ok(h) => if same_text(h.as_str(), plaintext) {
            Err(StoreError::Unexpected)
        } else {
            Ok(h)
        },
        Err(_) => Err(StoreError::Unexpected),
    }
}

/// Hashes a password under a fresh random salt.
///
/// Every hash returned is bcrypt-shaped, matches `plaintext` and differs
/// from it. The only failure is `Unexpected`, as [`hash_outcome`] says of
/// what the hasher gave.
pub fn hash(plaintext: &str) -> (r: Result<String, StoreError>)
    ensures
        match r {
            Ok(h) => is_bcrypt_shaped(h@) && password_matches(plaintext@, h@) && h@ != plaintext@,
            Err(e) => e == StoreError::Unexpected,
        },
{
    hash_outcome(plaintext, bcrypt_hash(plaintext))
}

/// Whether `plaintext` is the password that `opaque_hash` was made from. A
/// malformed hash matches nothing.
pub fn verify(plaintext: &str, opaque_hash: &str) -> (ok: bool)
    ensures
        ok == password_matches(plaintext@, opaque_hash@),
{
    match bcrypt_verify(plaintext, opaque_hash) {
        Ok(b) => b,
        Err(_) => false,
    }
}

/// Issues the signed token that asserts `user_id`, stamped with
/// `issued_at_unix_seconds` and expiring one lifetime later.
pub fn issue_token(user_id: u128, issued_at_unix_seconds: i64, secret: &[u8]) -> (token: String)
    ensures
        token@ == token_for(user_id, issued_at_unix_seconds, secret@),
{
    let exp: i64 = if issued_at_unix_seconds > i64::MAX - TOKEN_LIFETIME {
        i64::MAX
    } else {
        issued_at_unix_seconds + TOKEN_LIFETIME
    };
    let subject = uuid_display(user_id);
    match jwt_encode(
        CLAIM_EXPIRY,
        exp,
        CLAIM_ISSUED_AT,
        issued_at_unix_seconds,
        CLAIM_USER_ID,
        subject.as_str(),
        secret,
    ) {
        Ok(token) => token,
        // The encoder does not fail on these claims.
        Err(_) => String::new(),
    }
}

} // verus!
