//! The follow relation: who follows whom.

use crate::error::StoreError;
use crate::seqs::lemma_filter_all;
use crate::store::Store;
use vstd::prelude::*;

verus! {

/// A row of the follow relation: `follower_id` follows `followee_id`.
#[derive(Clone, Copy, Debug, PartialEq, Eq, Structural)]
pub struct Follow {
    pub followee_id: u128,
    pub follower_id: u128,
    pub created_at: i64,
    pub updated_at: i64,
}

/// The pair to insert into the follow relation.
#[derive(Clone, Copy, Debug, PartialEq, Eq, Structural)]
pub struct NewFollow {
    pub follower_id: u128,
    pub followee_id: u128,
}

/// The pair to delete from the follow relation.
#[derive(Clone, Copy, Debug, PartialEq, Eq, Structural)]
pub struct DeleteFollow {
    pub follower_id: u128,
    pub followee_id: u128,
}

/// Whether a row says that `follower` follows `followee`.
pub open spec fn follows(rows: Seq<Follow>, follower: u128, followee: u128) -> bool {
    exists|i: int|
        0 <= i < rows.len() && (#[trigger] rows[i]).follower_id == follower && rows[i].followee_id
            == followee
}

/// The invariant of the relation: at most one row for each ordered pair.
pub open spec fn follows_wf(rows: Seq<Follow>) -> bool {
    forall|i: int, j: int|
        0 <= i < j < rows.len() ==> !((#[trigger] rows[i]).follower_id == (
        #[trigger] rows[j]).follower_id && rows[i].followee_id == rows[j].followee_id)
}

/// The test that keeps every row but those of this pair.
pub open spec fn other_pair(follower: u128, followee: u128) -> spec_fn(Follow) -> bool {
    |row: Follow| !(row.follower_id == follower && row.followee_id == followee)
}

/// The row that `params` becomes when inserted at time `now`.
pub open spec fn new_row(params: NewFollow, now: i64) -> Follow {
    Follow {
        followee_id: params.followee_id,
        follower_id: params.follower_id,
        created_at: now,
        updated_at: now,
    }
}

/// The relation after `params` was inserted at time `now`.
pub open spec fn after_follow(rows: Seq<Follow>, params: NewFollow, now: i64) -> Seq<Follow> {
    rows.push(new_row(params, now))
}

/// The relation after the pair `params` was deleted.
pub open spec fn after_unfollow(rows: Seq<Follow>, params: DeleteFollow) -> Seq<Follow> {
    rows.filter(other_pair(params.follower_id, params.followee_id))
}

/// The follow relation, as a table.
pub struct FollowTable {
    rows: Vec<Follow>,
}

impl View for FollowTable {
    type V = Seq<Follow>;

    closed spec fn view(&self) -> Seq<Follow> {
        self.rows@
    }
}

impl FollowTable {
    /// Whether the table's invariant holds.
    pub open spec fn wf(&self) -> bool {
        follows_wf(self@)
    }

    /// An empty relation.
    pub fn new() -> (t: FollowTable)
        ensures
            t@ == Seq::<Follow>::empty(),
            t.wf(),
    {
        FollowTable { rows: Vec::new() }
    }

    /// Whether `follower` follows `followee`.
    pub fn contains(&self, follower: u128, followee: u128) -> (r: bool)
        ensures
            r == follows(self@, follower, followee),
    {
        let mut i: usize = 0;
        while i < self.rows.len()
            invariant
                i <= self.rows.len(),
                forall|k: int|
                    0 <= k < i ==> !((#[trigger] self@[k]).follower_id == follower
                        && self@[k].followee_id == followee),
            decreases self.rows.len() - i,
        {
            if self.rows[i].follower_id == follower && self.rows[i].followee_id == followee {
                return true;
            }
            i += 1;
        }
        false
    }

    /// Inserts the pair, created at `now`. A pair that is already there is
    /// refused with `ConstraintViolation`.
    pub fn insert(&mut self, params: &NewFollow, now: i64) -> (r: Result<(), StoreError>)
        requires
            old(self).wf(),
        ensures
            final(self).wf(),
            r is Err == follows(old(self)@, params.follower_id, params.followee_id),
            r is Err ==> final(self)@ == old(self)@ && r->Err_0 == StoreError::ConstraintViolation,
            r is Ok ==> final(self)@ == after_follow(old(self)@, *params, now),
            follows(final(self)@, params.follower_id, params.followee_id),
    {
        if self.contains(params.follower_id, params.followee_id) {
            return Err(StoreError::ConstraintViolation);
        }
        proof {
            lemma_follow_then_following(
                self@,
                *params,
                now,
                params.follower_id,
                params.followee_id,
            );
        }
        self.rows.push(
            Follow {
                followee_id: params.followee_id,
                follower_id: params.follower_id,
                created_at: now,
                updated_at: now,
            },
        );
        Ok(())
    }

    /// Puts back a row that was stored before, as it is. A row whose pair
    /// is already there is refused with `ConstraintViolation`.
    pub fn restore(&mut self, row: Follow) -> (r: Result<(), StoreError>)
        requires
            old(self).wf(),
        ensures
            final(self).wf(),
            r is Err == follows(old(self)@, row.follower_id, row.followee_id),
            r is Err ==> final(self)@ == old(self)@ && r->Err_0 == StoreError::ConstraintViolation,
            r is Ok ==> final(self)@ == old(self)@.push(row),
    {
        if self.contains(row.follower_id, row.followee_id) {
            return Err(StoreError::ConstraintViolation);
        }
        self.rows.push(row);
        Ok(())
    }

    /// Deletes the pair, if it is there.
    pub fn delete(&mut self, params: &DeleteFollow)
        requires
            old(self).wf(),
        ensures
            final(self).wf(),
            final(self)@ == after_unfollow(old(self)@, *params),
            !follows(final(self)@, params.follower_id, params.followee_id),
    {
        proof {
            lemma_unfollow_then_not_following(
                self@,
                *params,
                params.follower_id,
                params.followee_id,
            );
        }
        let ghost keep = other_pair(params.follower_id, params.followee_id);
        let mut kept: Vec<Follow> = Vec::new();
        let mut i: usize = 0;
        while i < self.rows.len()
            invariant
                i <= self.rows.len(),
                *self == *old(self),
                follows_wf(self@),
                keep == other_pair(params.follower_id, params.followee_id),
                kept@ == self@.take(i as int).filter(keep),
                forall|a: int|
                    0 <= a < kept@.len() ==> exists|j: int|
                        0 <= j < i && self@[j] == #[trigger] kept@[a],
                follows_wf(kept@),
            decreases self.rows.len() - i,
        {
            let row = self.rows[i];
            proof {
                assert(self@.take(i + 1) =~= self@.take(i as int).push(row));
                self@.take(i as int).lemma_filter_push(row, keep);
            }
            if !(row.follower_id == params.follower_id && row.followee_id == params.followee_id) {
                proof {
                    assert forall|a: int| 0 <= a < kept@.len() implies !(kept@[a].follower_id
                        == row.follower_id && kept@[a].followee_id == row.followee_id) by {
                        let j = choose|j: int| 0 <= j < i && self@[j] == kept@[a];
                        assert(!(self@[j].follower_id == self@[i as int].follower_id
                            && self@[j].followee_id == self@[i as int].followee_id));
                    }
                }
                kept.push(row);
            }
            i += 1;
        }
        proof {
            assert(self@.take(i as int) =~= self@);
        }
        self.rows = kept;
    }
}

impl Follow {
    /// Records that `params.follower_id` follows `params.followee_id`, as of
    /// the time `now`.
    ///
    /// Fails with `ConstraintViolation`, changing nothing, exactly where
    /// the pair is already recorded.
    pub fn create_follow(conn: &mut Store, params: &NewFollow, now: i64) -> (r: Result<
        (),
        StoreError,
    >)
        requires
            old(conn).wf(),
        ensures
            final(conn).wf(),
            final(conn).users == old(conn).users,
            final(conn).articles == old(conn).articles,
            final(conn).secret == old(conn).secret,
            r is Err == follows(old(conn).follows@, params.follower_id, params.followee_id),
            r is Err ==> final(conn).follows@ == old(conn).follows@ && r->Err_0
                == StoreError::ConstraintViolation,
            r is Ok ==> final(conn).follows@ == after_follow(old(conn).follows@, *params, now),
            follows(final(conn).follows@, params.follower_id, params.followee_id),
    {
        conn.follows.insert(params, now)
    }

    /// Removes the record that `params.follower_id` follows
    /// `params.followee_id`, if there is one.
    pub fn delete_follow(conn: &mut Store, params: &DeleteFollow)
        requires
            old(conn).wf(),
        ensures
            final(conn).wf(),
            final(conn).users == old(conn).users,
            final(conn).articles == old(conn).articles,
            final(conn).secret == old(conn).secret,
            final(conn).follows@ == after_unfollow(old(conn).follows@, *params),
            !follows(final(conn).follows@, params.follower_id, params.followee_id),
    {
        conn.follows.delete(params)
    }
}

/// After a follow, the follower follows the followee, and every other pair
/// is as it was.
pub proof fn lemma_follow_then_following(
    rows: Seq<Follow>,
    params: NewFollow,
    now: i64,
    follower: u128,
    followee: u128,
)
    ensures
        follows(after_follow(rows, params, now), params.follower_id, params.followee_id),
        follows(after_follow(rows, params, now), follower, followee) == (follows(
            rows,
            follower,
            followee,
        ) || (follower == params.follower_id && followee == params.followee_id)),
{
    let after = after_follow(rows, params, now);
    assert(after[rows.len() as int] == new_row(params, now));
    if follows(rows, follower, followee) {
        let i = choose|i: int|
            0 <= i < rows.len() && (#[trigger] rows[i]).follower_id == follower
                && rows[i].followee_id == followee;
        assert(after[i] == rows[i]);
    }
    if follows(after, follower, followee) {
        let i = choose|i: int|
            0 <= i < after.len() && (#[trigger] after[i]).follower_id == follower
                && after[i].followee_id == followee;
        if i < rows.len() {
            assert(rows[i] == after[i]);
        }
    }
}

/// After an unfollow, the follower does not follow the followee, and every
/// other pair is as it was.
pub proof fn lemma_unfollow_then_not_following(
    rows: Seq<Follow>,
    params: DeleteFollow,
    follower: u128,
    followee: u128,
)
    ensures
        !follows(after_unfollow(rows, params), params.follower_id, params.followee_id),
        follows(after_unfollow(rows, params), follower, followee) == (follows(
            rows,
            follower,
            followee,
        ) && !(follower == params.follower_id && followee == params.followee_id)),
{
    let keep = other_pair(params.follower_id, params.followee_id);
    let after = after_unfollow(rows, params);
    assert forall|i: int| 0 <= i < after.len() implies keep(#[trigger] after[i]) && rows.contains(
        after[i],
    ) by {
        rows.lemma_filter_pred(keep, i);
        rows.lemma_filter_contains_rev(keep, after[i]);
    }
    if follows(after, follower, followee) {
        let i = choose|i: int|
            0 <= i < after.len() && (#[trigger] after[i]).follower_id == follower
                && after[i].followee_id == followee;
        assert(rows.contains(after[i]));
        let j = choose|j: int| 0 <= j < rows.len() && rows[j] == after[i];
        assert(rows[j].follower_id == follower);
    }
    if follows(rows, follower, followee) && !(follower == params.follower_id && followee
        == params.followee_id) {
        let i = choose|i: int|
            0 <= i < rows.len() && (#[trigger] rows[i]).follower_id == follower
                && rows[i].followee_id == followee;
        rows.lemma_filter_contains(keep, i);
        let j = choose|j: int| 0 <= j < after.len() && after[j] == rows[i];
        assert(after[j].follower_id == follower);
    }
}

/// To unfollow someone who is not followed changes nothing.
pub proof fn lemma_unfollow_when_not_following(rows: Seq<Follow>, params: DeleteFollow)
    requires
        !follows(rows, params.follower_id, params.followee_id),
    ensures
        after_unfollow(rows, params) == rows,
{
    let keep = other_pair(params.follower_id, params.followee_id);
    assert forall|i: int| 0 <= i < rows.len() implies keep(#[trigger] rows[i]) by {}
    lemma_filter_all(rows, keep);
}

} // verus!
