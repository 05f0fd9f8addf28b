//! The boundary to the crates this library calls: bcrypt, jsonwebtoken
//! and uuid. Nothing here is proved. Each wrapper makes one call,
//! and its contract is what the rest of the library believes of that call.

use vstd::arithmetic::power::pow;
use vstd::prelude::*;

verus! {

/// The error type of the bcrypt crate.
#[verifier::external_type_specification]
#[verifier::external_body]
pub struct ExBcryptError(bcrypt::BcryptError);

/// The error type of the jsonwebtoken crate.
#[verifier::external_type_specification]
#[verifier::external_body]
pub struct ExJwtError(jsonwebtoken::errors::Error);

/// What `bcrypt::verify` answers for a password and a stored hash:
/// `Some(b)` for `Ok(b)`, `None` where it returns an error, as it does for
/// a hash that is malformed.
pub uninterp spec fn bcrypt_verdict(password: Seq<char>, hash: Seq<char>) -> Option<bool>;

/// The token that `jsonwebtoken::encode` gives, under the default header
/// (HS256) and an HMAC key made of `secret`, for the claims object into
/// which two integers and a text were inserted, in this order, each under
/// its name.
pub uninterp spec fn hs256_token(
    first_name: Seq<char>,
    first: i64,
    second_name: Seq<char>,
    second: i64,
    text_name: Seq<char>,
    text: Seq<char>,
    secret: Seq<u8>,
) -> Seq<char>;

/// Calls `bcrypt::hash` at the default cost. It draws a fresh salt, so two
/// calls differ; trusted of every hash it returns: it is the 60-character
/// string that begins `$2b$`, and `bcrypt::verify` accepts it for the same
/// password, since verifying recomputes the hash with the salt and cost read
/// back from the string.
#[verifier::external_body]
pub(crate) fn bcrypt_hash(password: &str) -> (r: Result<String, bcrypt::BcryptError>)
    ensures
        r matches Ok(h) ==> is_bcrypt_shaped(h@) && bcrypt_verdict(password@, h@) == Some(true),
{
    bcrypt::hash(password, bcrypt::DEFAULT_COST)
}

/// Calls `bcrypt::verify`; trusted to answer the same for the same password
/// and hash.
#[verifier::external_body]
pub(crate) fn bcrypt_verify(password: &str, hash: &str) -> (r: Result<bool, bcrypt::BcryptError>)
    ensures
        match r {
            Ok(b) => bcrypt_verdict(password@, hash@) == Some(b),
            Err(_) => bcrypt_verdict(password@, hash@) is None,
        },
{
    bcrypt::verify(password, hash)
}

/// Calls `jsonwebtoken::encode` with the default header on a claims object
/// that holds the two integers and the text under their names. Trusted to
/// be a function of the names, the values and the secret, and to succeed:
/// the header's algorithm and the key are both HMAC, a map of integers and
/// texts serialises to JSON without error, and HMAC signing cannot fail.
#[verifier::external_body]
pub(crate) fn jwt_encode(
    first_name: &str,
    first: i64,
    second_name: &str,
    second: i64,
    text_name: &str,
    text: &str,
    secret: &[u8],
) -> (r: Result<String, jsonwebtoken::errors::Error>)
    ensures
        r is Ok,
        r->Ok_0@ == hs256_token(
            first_name@,
            first,
            second_name@,
            second,
            text_name@,
            text@,
            secret@,
        ),
{
    let mut claims = serde_json::Map::new();
    claims.insert(first_name.to_string(), serde_json::Value::from(first));
    claims.insert(second_name.to_string(), serde_json::Value::from(second));
    claims.insert(text_name.to_string(), serde_json::Value::from(text));
    let key = jsonwebtoken::EncodingKey::from_secret(secret);
    jsonwebtoken::encode(&jsonwebtoken::Header::default(), &claims, &key)
}

/// Formats an identifier with `uuid::Uuid`'s `Display`, which writes the
/// hyphenated lower-case form: the 32 hexadecimal digits of the value,
/// highest first, in groups of 8, 4, 4, 4 and 12.
#[verifier::external_body]
pub(crate) fn uuid_display(id: u128) -> (s: String)
    ensures
        s@ == uuid_text(id),
{
    uuid::Uuid::from_u128(id).to_string()
}

/// `String::push` appends the character and changes nothing else.
pub assume_specification[ String::push ](s: &mut String, ch: char)
    ensures
        final(s)@ == old(s)@.push(ch),
;

/// `==` on string slices compares their characters.
pub assume_specification[ <str as PartialEq>::eq ](a: &str, b: &str) -> (r: bool)
    ensures
        r == (a@ == b@),
;

/// The lower-case hexadecimal digit of a value below sixteen.
pub open spec fn hex_digit(v: int) -> char {
    if v < 10 {
        (v + 48) as char
    } else {
        (v + 87) as char
    }
}

/// Whether a hyphen stands at place `i` of an identifier's text.
pub open spec fn is_hyphen_place(i: int) -> bool {
    i == 8 || i == 13 || i == 18 || i == 23
}

/// Which of the 32 digits, counted from the highest, stands at place `i`
/// of an identifier's text.
pub open spec fn digit_at_place(i: int) -> int {
    if i < 8 {
        i
    } else if i < 13 {
        i - 1
    } else if i < 18 {
        i - 2
    } else if i < 23 {
        i - 3
    } else {
        i - 4
    }
}

/// The text of the identifier with this 128-bit value, in the hyphenated
/// lower-case form of a UUID: 36 characters, hyphens at places 8, 13, 18
/// and 23, and elsewhere the value's hexadecimal digits, highest first.
pub open spec fn uuid_text(id: u128) -> Seq<char> {
    Seq::new(
        36,
        |i: int|
            if is_hyphen_place(i) {
                '-'
            } else {
                hex_digit((id as int / pow(16, (31 - digit_at_place(i)) as nat)) % 16)
            },
    )
}

/// The shape of every bcrypt hash string: sixty characters, the first four
/// of them `$2b$`.
pub open spec fn is_bcrypt_shaped(hash: Seq<char>) -> bool {
    &&& hash.len() == 60
    &&& hash[0] == '$'
    &&& hash[1] == '2'
    &&& hash[2] == 'b'
    &&& hash[3] == '$'
}

} // verus!
