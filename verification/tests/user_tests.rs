use conduit::credential::verify;
use conduit::error::StoreError;
use conduit::store::Store;
use conduit::user::{Profile, SignupUser, UpdatableUser, User, UserTable};

const PASSWORD: &str = "correctbatteryhorsestapler";
const HASHED: &str = "$2b$04$EGdrhbKUv8Oc9vGiXX0HQOxSg445d458Muh7DAHskb6QbtCvdxcie";

fn store() -> Store {
    Store::new(b"0123456789abcdef".to_vec())
}

fn join(store: &mut Store, email: &str, username: &str) -> User {
    let record = SignupUser { email, username, password: HASHED };
    let (user, _token) = User::signup_with(store, &record, 1_000).expect("a new account");
    user
}

fn no_changes() -> UpdatableUser {
    UpdatableUser { email: None, username: None, password: None, image: None, bio: None }
}

#[test]
fn signup_creates_the_account_and_hashes_the_password() {
    let mut store = store();
    let (user, token) =
        User::signup(&mut store, "alice@example.com", "alice", "hunter2", 1_500).expect("a new account");
    assert_eq!(user.id, 0);
    assert_eq!(user.email, "alice@example.com");
    assert_eq!(user.username, "alice");
    assert_ne!(user.password, "hunter2");
    assert!(verify("hunter2", &user.password));
    assert_eq!(user.bio, None);
    assert_eq!(user.image, None);
    assert_eq!(user.created_at, 1_500);
    assert_eq!(user.updated_at, 1_500);
    assert_eq!(token, conduit::credential::issue_token(0, 1_500, b"0123456789abcdef"));
    assert_eq!(store.users.len(), 1);
    let stored = User::find_by_id(&store, 0).expect("the account");
    assert_eq!(stored.password, user.password);
}

#[test]
fn signin_after_signup_succeeds_with_the_same_credentials() {
    let mut store = store();
    let (user, _) =
        User::signup(&mut store, "alice@example.com", "alice", "hunter2", 1_500).expect("a new account");
    let (again, token) =
        User::signin(&store, "alice@example.com", "hunter2", 2_000).expect("the same account");
    assert_eq!(again.id, user.id);
    assert_eq!(again.username, "alice");
    assert_eq!(token.split('.').count(), 3);
}

#[test]
fn signup_with_a_used_email_is_a_unique_violation() {
    let mut store = store();
    join(&mut store, "alice@example.com", "alice");
    let r = User::signup(&mut store, "alice@example.com", "alice2", "pw", 1_500);
    assert_eq!(r.unwrap_err(), StoreError::UniqueConstraintViolation);
    assert_eq!(store.users.len(), 1);
}

#[test]
fn signup_with_a_used_username_is_a_unique_violation() {
    let mut store = store();
    join(&mut store, "alice@example.com", "alice");
    let r = User::signup(&mut store, "other@example.com", "alice", "pw", 1_500);
    assert_eq!(r.unwrap_err(), StoreError::UniqueConstraintViolation);
    let record = SignupUser { email: "other@example.com", username: "alice", password: HASHED };
    let r = User::signup_with(&mut store, &record, 5);
    assert_eq!(r.unwrap_err(), StoreError::UniqueConstraintViolation);
    assert_eq!(store.users.len(), 1);
}

#[test]
fn signup_with_stores_the_record_as_it_is() {
    let mut store = store();
    let record = SignupUser { email: "bob@example.com", username: "bob", password: HASHED };
    let (user, token) = User::signup_with(&mut store, &record, 1_234).expect("a new account");
    assert_eq!(user.id, 0);
    assert_eq!(user.email, "bob@example.com");
    assert_eq!(user.username, "bob");
    assert_eq!(user.password, HASHED);
    assert_eq!(user.created_at, 1_234);
    assert_eq!(user.updated_at, 1_234);
    assert_eq!(
        token,
        conduit::credential::issue_token(0, 1_234, b"0123456789abcdef")
    );
}

#[test]
fn ids_are_given_in_order() {
    let mut store = store();
    assert_eq!(join(&mut store, "a@example.com", "a").id, 0);
    assert_eq!(join(&mut store, "b@example.com", "b").id, 1);
    assert_eq!(join(&mut store, "c@example.com", "c").id, 2);
    assert_eq!(store.users.len(), 3);
}

#[test]
fn signin_with_the_right_password_succeeds() {
    let mut store = store();
    let user = join(&mut store, "alice@example.com", "alice");
    let (found, token) =
        User::signin(&store, "alice@example.com", PASSWORD, 2_000).expect("the account");
    assert_eq!(found.id, user.id);
    assert_eq!(found.email, "alice@example.com");
    assert_eq!(
        token,
        conduit::credential::issue_token(user.id, 2_000, b"0123456789abcdef")
    );
}

#[test]
fn signin_with_a_wrong_password_is_an_invalid_credential() {
    let mut store = store();
    join(&mut store, "alice@example.com", "alice");
    let r = User::signin(&store, "alice@example.com", "wrong", 2_000);
    assert_eq!(r.unwrap_err(), StoreError::InvalidCredential);
    let r = User::signin(&store, "alice@example.com", "wrong", 3);
    assert_eq!(r.unwrap_err(), StoreError::InvalidCredential);
}

#[test]
fn signin_with_an_unknown_email_is_not_found() {
    let mut store = store();
    join(&mut store, "alice@example.com", "alice");
    let r = User::signin(&store, "nobody@example.com", PASSWORD, 2_000);
    assert_eq!(r.unwrap_err(), StoreError::NotFound);
}

#[test]
fn signin_against_a_malformed_stored_hash_is_an_invalid_credential() {
    let mut store = store();
    let record = SignupUser { email: "x@example.com", username: "x", password: "plain" };
    User::signup_with(&mut store, &record, 1).expect("a new account");
    let r = User::signin(&store, "x@example.com", "plain", 2_000);
    assert_eq!(r.unwrap_err(), StoreError::InvalidCredential);
}

#[test]
fn find_by_id_finds_the_user_or_not() {
    let mut store = store();
    let user = join(&mut store, "alice@example.com", "alice");
    assert_eq!(User::find_by_id(&store, user.id).expect("the account").username, "alice");
    assert_eq!(User::find_by_id(&store, 1).unwrap_err(), StoreError::NotFound);
    assert_eq!(User::find_by_id(&store, u128::MAX).unwrap_err(), StoreError::NotFound);
}

#[test]
fn find_by_username_finds_the_user_or_not() {
    let mut store = store();
    join(&mut store, "alice@example.com", "alice");
    join(&mut store, "bob@example.com", "bob");
    assert_eq!(User::find_by_username(&store, "bob").expect("the account").id, 1);
    assert_eq!(User::find_by_username(&store, "carol").unwrap_err(), StoreError::NotFound);
    assert_eq!(User::find_by_username(&store, "Bob").unwrap_err(), StoreError::NotFound);
}

#[test]
fn table_lookups_by_email_and_username() {
    let mut table = UserTable::new();
    let record = SignupUser { email: "a@example.com", username: "a", password: HASHED };
    let user = table.insert(&record, 7).expect("a new row");
    assert_eq!(user.id, 0);
    assert_eq!(table.find_by_email("a@example.com").map(|u| u.id), Some(0));
    assert_eq!(table.find_by_email("b@example.com").map(|u| u.id), None);
    assert_eq!(table.find_by_username("a").map(|u| u.id), Some(0));
    assert_eq!(table.find_by_username("b").map(|u| u.id), None);
    assert_eq!(table.get(0).map(|u| u.email), Some("a@example.com".to_string()));
    assert_eq!(table.get(1).map(|u| u.email), None);
    assert_eq!(table.insert(&record, 8).unwrap_err(), StoreError::UniqueConstraintViolation);
    assert_eq!(table.len(), 1);
}

#[test]
fn update_applies_only_the_given_fields() {
    let mut store = store();
    let user = join(&mut store, "alice@example.com", "alice");
    let changes = UpdatableUser {
        bio: Some("I write".to_string()),
        image: Some("https://example.com/a.png".to_string()),
        ..no_changes()
    };
    let updated = User::update(&mut store, user.id, changes, 3_000).expect("the account");
    assert_eq!(updated.id, user.id);
    assert_eq!(updated.email, "alice@example.com");
    assert_eq!(updated.username, "alice");
    assert_eq!(updated.password, HASHED);
    assert_eq!(updated.bio, Some("I write".to_string()));
    assert_eq!(updated.image, Some("https://example.com/a.png".to_string()));
    assert_eq!(updated.created_at, 1_000);
    assert_eq!(updated.updated_at, 3_000);
    let stored = User::find_by_id(&store, user.id).expect("the account");
    assert_eq!(stored.bio, Some("I write".to_string()));
    let updated = User::update(&mut store, user.id, no_changes(), 3_000).expect("the account");
    assert_eq!(updated.bio, Some("I write".to_string()));
    assert_eq!(updated.image, Some("https://example.com/a.png".to_string()));
}

#[test]
fn update_hashes_a_new_password() {
    let mut store = store();
    let user = join(&mut store, "alice@example.com", "alice");
    let changes = UpdatableUser { password: Some("n3w".to_string()), ..no_changes() };
    let updated = User::update(&mut store, user.id, changes, 3_000).expect("the account");
    assert_ne!(updated.password, "n3w");
    assert_ne!(updated.password, HASHED);
    assert!(verify("n3w", &updated.password));
    assert!(!verify(PASSWORD, &updated.password));
    let r = User::signin(&store, "alice@example.com", PASSWORD, 2_000);
    assert_eq!(r.unwrap_err(), StoreError::InvalidCredential);
}

#[test]
fn update_of_email_and_username() {
    let mut store = store();
    let user = join(&mut store, "alice@example.com", "alice");
    join(&mut store, "bob@example.com", "bob");
    let changes = UpdatableUser {
        email: Some("al@example.com".to_string()),
        username: Some("al".to_string()),
        ..no_changes()
    };
    let updated = User::update(&mut store, user.id, changes, 3_000).expect("the account");
    assert_eq!(updated.email, "al@example.com");
    assert_eq!(updated.username, "al");
    assert_eq!(User::find_by_username(&store, "al").expect("the account").id, user.id);
    assert_eq!(User::find_by_username(&store, "alice").unwrap_err(), StoreError::NotFound);
    assert!(User::signin(&store, "al@example.com", PASSWORD, 5).is_ok());
}

#[test]
fn update_to_ones_own_email_and_username_is_accepted() {
    let mut store = store();
    let user = join(&mut store, "alice@example.com", "alice");
    let changes = UpdatableUser {
        email: Some("alice@example.com".to_string()),
        username: Some("alice".to_string()),
        ..no_changes()
    };
    assert!(User::update(&mut store, user.id, changes, 3_000).is_ok());
}

#[test]
fn update_to_another_users_email_or_username_is_a_unique_violation() {
    let mut store = store();
    let alice = join(&mut store, "alice@example.com", "alice");
    join(&mut store, "bob@example.com", "bob");
    let changes = UpdatableUser { email: Some("bob@example.com".to_string()), ..no_changes() };
    assert_eq!(
        User::update(&mut store, alice.id, changes, 3_000).unwrap_err(),
        StoreError::UniqueConstraintViolation
    );
    let changes = UpdatableUser { username: Some("bob".to_string()), ..no_changes() };
    assert_eq!(
        User::update(&mut store, alice.id, changes, 3_000).unwrap_err(),
        StoreError::UniqueConstraintViolation
    );
    let stored = User::find_by_id(&store, alice.id).expect("the account");
    assert_eq!(stored.email, "alice@example.com");
    assert_eq!(stored.username, "alice");
}

#[test]
fn update_of_an_unknown_user_is_not_found() {
    let mut store = store();
    join(&mut store, "alice@example.com", "alice");
    let changes = UpdatableUser { bio: Some("x".to_string()), ..no_changes() };
    assert_eq!(User::update(&mut store, 9, changes, 3_000).unwrap_err(), StoreError::NotFound);
}

#[test]
fn table_update_stamps_the_time() {
    let mut table = UserTable::new();
    let record = SignupUser { email: "a@example.com", username: "a", password: HASHED };
    table.insert(&record, 7).expect("a new row");
    let changes = UpdatableUser { bio: Some("b".to_string()), ..no_changes() };
    let updated = table.update(0, &changes, 99).expect("the row");
    assert_eq!(updated.created_at, 7);
    assert_eq!(updated.updated_at, 99);
    assert_eq!(updated.password, HASHED);
    let changes = UpdatableUser { password: Some("as given".to_string()), ..no_changes() };
    let updated = table.update(0, &changes, 100).expect("the row");
    assert_eq!(updated.password, "as given");
    assert_eq!(table.update(1, &changes, 101).unwrap_err(), StoreError::NotFound);
}

#[test]
fn follow_then_is_following() {
    let mut store = store();
    let alice = join(&mut store, "alice@example.com", "alice");
    let bob = join(&mut store, "bob@example.com", "bob");
    assert!(!alice.is_following(&store, &bob.id));
    let profile = alice.follow(&mut store, "bob", 4_000).expect("a profile");
    assert!(profile.following);
    assert_eq!(profile.username, "bob");
    assert!(alice.is_following(&store, &bob.id));
    assert!(!bob.is_following(&store, &alice.id));
}

#[test]
fn unfollow_then_is_not_following() {
    let mut store = store();
    let alice = join(&mut store, "alice@example.com", "alice");
    let bob = join(&mut store, "bob@example.com", "bob");
    alice.follow(&mut store, "bob", 4_000).expect("a profile");
    let profile = alice.unfollow(&mut store, "bob").expect("a profile");
    assert!(!profile.following);
    assert_eq!(profile.username, "bob");
    assert!(!alice.is_following(&store, &bob.id));
}

#[test]
fn unfollow_when_not_following_is_no_error() {
    let mut store = store();
    let alice = join(&mut store, "alice@example.com", "alice");
    let bob = join(&mut store, "bob@example.com", "bob");
    let carol = join(&mut store, "carol@example.com", "carol");
    alice.follow(&mut store, "carol", 4_000).expect("a profile");
    let profile = alice.unfollow(&mut store, "bob").expect("a profile");
    assert!(!profile.following);
    assert!(!alice.is_following(&store, &bob.id));
    assert!(alice.is_following(&store, &carol.id));
}

#[test]
fn follow_twice_is_a_constraint_violation() {
    let mut store = store();
    let alice = join(&mut store, "alice@example.com", "alice");
    let bob = join(&mut store, "bob@example.com", "bob");
    alice.follow(&mut store, "bob", 4_000).expect("a profile");
    assert_eq!(alice.follow(&mut store, "bob", 4_000).unwrap_err(), StoreError::ConstraintViolation);
    assert!(alice.is_following(&store, &bob.id));
}

#[test]
fn follow_and_unfollow_of_an_unknown_user_are_not_found() {
    let mut store = store();
    let alice = join(&mut store, "alice@example.com", "alice");
    assert_eq!(alice.follow(&mut store, "nobody", 4_000).unwrap_err(), StoreError::NotFound);
    assert_eq!(alice.unfollow(&mut store, "nobody").unwrap_err(), StoreError::NotFound);
}

#[test]
fn profile_of_a_user() {
    let mut store = store();
    let alice = join(&mut store, "alice@example.com", "alice");
    let changes = UpdatableUser { bio: Some("hi".to_string()), ..no_changes() };
    let alice = User::update(&mut store, alice.id, changes, 3_000).expect("the account");
    let profile = Profile::of(&alice, true);
    assert_eq!(profile.username, "alice");
    assert_eq!(profile.bio, Some("hi".to_string()));
    assert_eq!(profile.image, None);
    assert!(profile.following);
    assert!(!Profile::of(&alice, false).following);
}

#[test]
fn generate_token_issues_a_token_for_the_user() {
    let mut store = store();
    let alice = join(&mut store, "alice@example.com", "alice");
    let token = alice.generate_token(b"0123456789abcdef", 1_700_000_000);
    assert_eq!(
        token,
        conduit::credential::issue_token(alice.id, 1_700_000_000, b"0123456789abcdef")
    );
    let mut validation = jsonwebtoken::Validation::new(jsonwebtoken::Algorithm::HS256);
    validation.validate_exp = false;
    validation.required_spec_claims.clear();
    let decoded = jsonwebtoken::decode::<serde_json::Value>(
        &token,
        &jsonwebtoken::DecodingKey::from_secret(b"0123456789abcdef"),
        &validation,
    )
    .expect("a token signed with this secret");
    assert_eq!(decoded.claims["user_id"], "00000000-0000-0000-0000-000000000000");
    assert_eq!(decoded.claims["iat"], 1_700_000_000i64);
    assert_eq!(decoded.claims["exp"], 1_700_000_000i64 + 86_400);
}

#[test]
fn a_clone_of_a_user_has_the_same_fields() {
    let mut store = store();
    let alice = join(&mut store, "alice@example.com", "alice");
    let copy = alice.clone();
    assert_eq!(copy.id, alice.id);
    assert_eq!(copy.email, alice.email);
    assert_eq!(copy.username, alice.username);
    assert_eq!(copy.password, alice.password);
    assert_eq!(copy.created_at, alice.created_at);
}

#[test]
fn follow_returns_the_profile_of_the_followed_user() {
    let mut store = store();
    let alice = join(&mut store, "alice@example.com", "alice");
    let bob = join(&mut store, "bob@example.com", "bob");
    let changes = UpdatableUser {
        bio: Some("I am Bob".to_string()),
        image: Some("https://example.com/bob.png".to_string()),
        ..no_changes()
    };
    User::update(&mut store, bob.id, changes, 3_000).expect("the account");
    let profile = alice.follow(&mut store, "bob", 4_000).expect("a profile");
    assert_eq!(profile.username, "bob");
    assert_eq!(profile.bio, Some("I am Bob".to_string()));
    assert_eq!(profile.image, Some("https://example.com/bob.png".to_string()));
    assert!(profile.following);
    let profile = alice.unfollow(&mut store, "bob").expect("a profile");
    assert_eq!(profile.username, "bob");
    assert_eq!(profile.bio, Some("I am Bob".to_string()));
    assert!(!profile.following);
}

#[test]
fn update_of_an_unknown_user_with_a_password_is_not_found() {
    let mut store = store();
    join(&mut store, "alice@example.com", "alice");
    let changes = UpdatableUser { password: Some("n3w".to_string()), ..no_changes() };
    assert_eq!(User::update(&mut store, 9, changes, 3_000).unwrap_err(), StoreError::NotFound);
}

#[test]
fn update_with_a_clash_and_a_password_is_a_unique_violation() {
    let mut store = store();
    let alice = join(&mut store, "alice@example.com", "alice");
    join(&mut store, "bob@example.com", "bob");
    let changes = UpdatableUser {
        username: Some("bob".to_string()),
        password: Some("n3w".to_string()),
        ..no_changes()
    };
    assert_eq!(
        User::update(&mut store, alice.id, changes, 3_000).unwrap_err(),
        StoreError::UniqueConstraintViolation
    );
    assert!(User::signin(&store, "alice@example.com", PASSWORD, 5).is_ok());
}

#[test]
fn the_table_says_why_it_refuses_an_update() {
    let mut table = UserTable::new();
    let a = SignupUser { email: "a@example.com", username: "a", password: HASHED };
    let b = SignupUser { email: "b@example.com", username: "b", password: HASHED };
    table.insert(&a, 1).expect("a new row");
    table.insert(&b, 1).expect("a new row");
    assert_eq!(table.refusal(0, &no_changes()), None);
    assert_eq!(table.refusal(2, &no_changes()), Some(StoreError::NotFound));
    let to_b = UpdatableUser { email: Some("b@example.com".to_string()), ..no_changes() };
    assert_eq!(table.refusal(0, &to_b), Some(StoreError::UniqueConstraintViolation));
    assert_eq!(table.refusal(1, &to_b), None);
    assert_eq!(table.refusal(2, &to_b), Some(StoreError::NotFound));
}
