use conduit::credential::{
    hash, hash_outcome, issue_token, verify, CLAIM_EXPIRY, CLAIM_ISSUED_AT, CLAIM_USER_ID,
    TOKEN_LIFETIME,
};
use conduit::error::StoreError;
use jsonwebtoken::{decode, Algorithm, DecodingKey, Validation};

const KNOWN_PASSWORD: &str = "correctbatteryhorsestapler";
const KNOWN_HASH: &str = "$2b$04$EGdrhbKUv8Oc9vGiXX0HQOxSg445d458Muh7DAHskb6QbtCvdxcie";

fn claims_of(token: &str, secret: &[u8]) -> serde_json::Value {
    let mut validation = Validation::new(Algorithm::HS256);
    validation.validate_exp = false;
    validation.required_spec_claims.clear();
    decode::<serde_json::Value>(token, &DecodingKey::from_secret(secret), &validation)
        .expect("a token signed with this secret")
        .claims
}

#[test]
fn a_hash_matches_its_password_and_no_other() {
    let hashed = hash("hunter2").expect("hashing works here");
    assert!(verify("hunter2", &hashed));
    assert!(!verify("hunter3", &hashed));
}

#[test]
fn a_hash_is_not_the_plaintext_and_has_bcrypt_shape() {
    let hashed = hash("s3cret").expect("hashing works here");
    assert_ne!(hashed, "s3cret");
    assert_eq!(hashed.chars().count(), 60);
    assert!(hashed.starts_with("$2b$"));
}

#[test]
fn two_hashes_of_one_password_differ() {
    let a = hash("pw").expect("hashing works here");
    let b = hash("pw").expect("hashing works here");
    assert_ne!(a, b);
}

#[test]
fn verify_accepts_a_known_hash() {
    assert!(verify(KNOWN_PASSWORD, KNOWN_HASH));
}

#[test]
fn verify_rejects_a_wrong_password() {
    assert!(!verify("wrong", KNOWN_HASH));
}

#[test]
fn verify_rejects_a_malformed_hash() {
    assert!(!verify(KNOWN_PASSWORD, ""));
    assert!(!verify(KNOWN_PASSWORD, "not a hash"));
    assert!(!verify(KNOWN_PASSWORD, KNOWN_PASSWORD));
}

#[test]
fn hash_outcome_keeps_a_hash() {
    assert_eq!(
        hash_outcome(KNOWN_PASSWORD, Ok(KNOWN_HASH.to_string())),
        Ok(KNOWN_HASH.to_string())
    );
}

#[test]
fn hash_outcome_withholds_a_hash_that_is_the_plaintext() {
    assert_eq!(hash_outcome(KNOWN_HASH, Ok(KNOWN_HASH.to_string())), Err(StoreError::Unexpected));
    assert_eq!(hash_outcome("same", Ok("same".to_string())), Err(StoreError::Unexpected));
    assert_eq!(hash_outcome("", Ok(String::new())), Err(StoreError::Unexpected));
}

#[test]
fn hash_outcome_maps_every_failure_to_unexpected() {
    assert_eq!(
        hash_outcome("pw", Err(bcrypt::BcryptError::CostNotAllowed(3))),
        Err(StoreError::Unexpected)
    );
    assert_eq!(
        hash_outcome("pw", Err(bcrypt::BcryptError::Truncation(80))),
        Err(StoreError::Unexpected)
    );
}

#[test]
fn a_token_carries_the_three_claims() {
    let secret = b"0123456789abcdef";
    let id: u128 = 0x67e5504410b1426f9247bb680e5fe0c8;
    let token = issue_token(id, 1_600_000_000, secret);
    let claims = claims_of(&token, secret);
    assert_eq!(claims[CLAIM_USER_ID], "67e55044-10b1-426f-9247-bb680e5fe0c8");
    assert_eq!(claims[CLAIM_ISSUED_AT], 1_600_000_000i64);
    assert_eq!(claims[CLAIM_EXPIRY], 1_600_000_000i64 + 86_400);
    assert_eq!(claims.as_object().map(|o| o.len()), Some(3));
}

#[test]
fn a_token_names_its_user_in_uuid_form() {
    let secret = b"k";
    let token = issue_token(1, 0, secret);
    let claims = claims_of(&token, secret);
    assert_eq!(claims["user_id"], uuid::Uuid::from_u128(1).to_string());
    assert_eq!(claims["user_id"], "00000000-0000-0000-0000-000000000001");
    let token = issue_token(u128::MAX, 0, secret);
    assert_eq!(claims_of(&token, secret)["user_id"], "ffffffff-ffff-ffff-ffff-ffffffffffff");
    let token = issue_token(0x0123456789abcdef_fedcba9876543210, 0, secret);
    assert_eq!(claims_of(&token, secret)["user_id"], "01234567-89ab-cdef-fedc-ba9876543210");
}

#[test]
fn a_token_is_issued_under_an_empty_secret_too() {
    let token = issue_token(3, 10, b"");
    assert_eq!(token.split('.').count(), 3);
    assert_eq!(claims_of(&token, b"")["iat"], 10);
}

#[test]
fn a_token_lives_one_day() {
    assert_eq!(TOKEN_LIFETIME, 60 * 60 * 24);
    let secret = b"k";
    let token = issue_token(9, 100, secret);
    let claims = claims_of(&token, secret);
    assert_eq!(claims["exp"], 100 + TOKEN_LIFETIME);
}

#[test]
fn a_token_issued_at_the_end_of_time_expires_then() {
    let secret = b"k";
    let token = issue_token(9, i64::MAX, secret);
    let claims = claims_of(&token, secret);
    assert_eq!(claims["iat"], i64::MAX);
    assert_eq!(claims["exp"], i64::MAX);
    let token = issue_token(9, i64::MAX - TOKEN_LIFETIME, secret);
    assert_eq!(claims_of(&token, secret)["exp"], i64::MAX);
    let token = issue_token(9, i64::MAX - TOKEN_LIFETIME + 1, secret);
    assert_eq!(claims_of(&token, secret)["exp"], i64::MAX);
}

#[test]
fn a_token_is_the_same_for_the_same_claims_and_secret() {
    let a = issue_token(5, 77, b"secret");
    let b = issue_token(5, 77, b"secret");
    assert_eq!(a, b);
}

#[test]
fn a_token_depends_on_user_time_and_secret() {
    let base = issue_token(5, 77, b"secret");
    assert_ne!(base, issue_token(6, 77, b"secret"));
    assert_ne!(base, issue_token(5, 78, b"secret"));
    assert_ne!(base, issue_token(5, 77, b"other"));
}

#[test]
fn a_token_does_not_verify_under_another_secret() {
    let token = issue_token(5, 77, b"secret");
    let mut validation = Validation::new(Algorithm::HS256);
    validation.validate_exp = false;
    validation.required_spec_claims.clear();
    let decoded =
        decode::<serde_json::Value>(&token, &DecodingKey::from_secret(b"other"), &validation);
    assert!(decoded.is_err());
}
