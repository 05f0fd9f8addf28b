use conduit::error::StoreError;
use conduit::follow::{DeleteFollow, Follow, FollowTable, NewFollow};
use conduit::store::Store;

fn pair(follower_id: u128, followee_id: u128) -> NewFollow {
    NewFollow { follower_id, followee_id }
}

fn unpair(follower_id: u128, followee_id: u128) -> DeleteFollow {
    DeleteFollow { follower_id, followee_id }
}

#[test]
fn an_empty_relation_has_no_follows() {
    let table = FollowTable::new();
    assert!(!table.contains(1, 2));
}

#[test]
fn insert_then_contains() {
    let mut table = FollowTable::new();
    assert_eq!(table.insert(&pair(1, 2), 10), Ok(()));
    assert!(table.contains(1, 2));
}

#[test]
fn following_has_a_direction() {
    let mut table = FollowTable::new();
    assert_eq!(table.insert(&pair(1, 2), 10), Ok(()));
    assert!(!table.contains(2, 1));
    assert_eq!(table.insert(&pair(2, 1), 11), Ok(()));
    assert!(table.contains(2, 1));
}

#[test]
fn a_second_follow_of_the_same_pair_is_a_constraint_violation() {
    let mut table = FollowTable::new();
    assert_eq!(table.insert(&pair(1, 2), 10), Ok(()));
    assert_eq!(table.insert(&pair(1, 2), 11), Err(StoreError::ConstraintViolation));
    assert!(table.contains(1, 2));
    table.delete(&unpair(1, 2));
    assert!(!table.contains(1, 2));
}

#[test]
fn delete_then_not_contains() {
    let mut table = FollowTable::new();
    assert_eq!(table.insert(&pair(1, 2), 10), Ok(()));
    table.delete(&unpair(1, 2));
    assert!(!table.contains(1, 2));
}

#[test]
fn delete_leaves_other_pairs() {
    let mut table = FollowTable::new();
    assert_eq!(table.insert(&pair(1, 2), 10), Ok(()));
    assert_eq!(table.insert(&pair(1, 3), 10), Ok(()));
    assert_eq!(table.insert(&pair(3, 2), 10), Ok(()));
    table.delete(&unpair(1, 2));
    assert!(!table.contains(1, 2));
    assert!(table.contains(1, 3));
    assert!(table.contains(3, 2));
}

#[test]
fn delete_of_an_absent_pair_changes_nothing() {
    let mut table = FollowTable::new();
    assert_eq!(table.insert(&pair(1, 3), 10), Ok(()));
    table.delete(&unpair(1, 2));
    assert!(table.contains(1, 3));
    assert!(!table.contains(1, 2));
}

#[test]
fn one_can_follow_again_after_unfollowing() {
    let mut table = FollowTable::new();
    assert_eq!(table.insert(&pair(1, 2), 10), Ok(()));
    table.delete(&unpair(1, 2));
    assert_eq!(table.insert(&pair(1, 2), 12), Ok(()));
    assert!(table.contains(1, 2));
}

#[test]
fn create_follow_and_delete_follow_on_a_store() {
    let mut store = Store::new(vec![1, 2, 3]);
    assert_eq!(Follow::create_follow(&mut store, &pair(4, 5), 7), Ok(()));
    assert!(store.follows.contains(4, 5));
    assert_eq!(
        Follow::create_follow(&mut store, &pair(4, 5), 7),
        Err(StoreError::ConstraintViolation)
    );
    Follow::delete_follow(&mut store, &unpair(4, 5));
    assert!(!store.follows.contains(4, 5));
    Follow::delete_follow(&mut store, &unpair(4, 5));
    assert!(!store.follows.contains(4, 5));
}
