//! Users: the record, the table that holds them, and the account
//! operations.

use crate::credential::{
    hash, issue_token, password_matches, token_for, verify,
};
use crate::error::StoreError;
use crate::follow::{after_follow, after_unfollow, follows, DeleteFollow, Follow, NewFollow};
use crate::outside::is_bcrypt_shaped;
use crate::store::Store;
use crate::text::{
    clone_opt, opt_text, replace_opt, replace_text, replaced, replaced_opt, same_text,
};
use vstd::prelude::*;

verus! {

/// A signed session token.
pub type Token = String;

/// An account.
#[derive(Debug)]
pub struct User {
    pub id: u128,
    pub email: String,
    pub username: String,
    /// The bcrypt hash of the password, never the password itself.
    pub password: String,
    pub bio: Option<String>,
    pub image: Option<String>,
    pub created_at: i64,
    pub updated_at: i64,
}

/// What a [`User`] holds, as mathematical values.
pub struct UserView {
    pub id: u128,
    pub email: Seq<char>,
    pub username: Seq<char>,
    pub password: Seq<char>,
    pub bio: Option<Seq<char>>,
    pub image: Option<Seq<char>>,
    pub created_at: i64,
    pub updated_at: i64,
}

impl View for User {
    type V = UserView;

    open spec fn view(&self) -> UserView {
        UserView {
            id: self.id,
            email: self.email@,
            username: self.username@,
            password: self.password@,
            bio: opt_text(self.bio),
            image: opt_text(self.image),
            created_at: self.created_at,
            updated_at: self.updated_at,
        }
    }
}

impl Clone for User {
    fn clone(&self) -> (r: Self)
        ensures
            r == *self,
    {
        User {
            id: self.id,
            email: self.email.clone(),
            username: self.username.clone(),
            password: self.password.clone(),
            bio: clone_opt(&self.bio),
            image: clone_opt(&self.image),
            created_at: self.created_at,
            updated_at: self.updated_at,
        }
    }
}

/// The fields a new account is made from; the password is already hashed.
#[derive(Debug)]
pub struct SignupUser<'a> {
    pub email: &'a str,
    pub username: &'a str,
    pub password: &'a str,
}

/// What a [`SignupUser`] holds, as mathematical values.
pub struct SignupUserView {
    pub email: Seq<char>,
    pub username: Seq<char>,
    pub password: Seq<char>,
}

impl<'a> View for SignupUser<'a> {
    type V = SignupUserView;

    open spec fn view(&self) -> SignupUserView {
        SignupUserView { email: self.email@, username: self.username@, password: self.password@ }
    }
}

/// A partial update of an account: each field that is `Some` replaces the
/// stored one.
#[derive(Debug)]
pub struct UpdatableUser {
    pub email: Option<String>,
    pub username: Option<String>,
    pub password: Option<String>,
    pub image: Option<String>,
    pub bio: Option<String>,
}

/// What an [`UpdatableUser`] holds, as mathematical values.
pub struct UpdatableUserView {
    pub email: Option<Seq<char>>,
    pub username: Option<Seq<char>>,
    pub password: Option<Seq<char>>,
    pub image: Option<Seq<char>>,
    pub bio: Option<Seq<char>>,
}

impl View for UpdatableUser {
    type V = UpdatableUserView;

    open spec fn view(&self) -> UpdatableUserView {
        UpdatableUserView {
            email: opt_text(self.email),
            username: opt_text(self.username),
            password: opt_text(self.password),
            image: opt_text(self.image),
            bio: opt_text(self.bio),
        }
    }
}

/// A user as another user sees them.
#[derive(Debug)]
pub struct Profile {
    pub username: String,
    pub bio: Option<String>,
    pub image: Option<String>,
    /// Whether the viewer follows this user.
    pub following: bool,
}

/// What a [`Profile`] holds, as mathematical values.
pub struct ProfileView {
    pub username: Seq<char>,
    pub bio: Option<Seq<char>>,
    pub image: Option<Seq<char>>,
    pub following: bool,
}

impl View for Profile {
    type V = ProfileView;

    open spec fn view(&self) -> ProfileView {
        ProfileView {
            username: self.username@,
            bio: opt_text(self.bio),
            image: opt_text(self.image),
            following: self.following,
        }
    }
}

/// The profile of `user` with the given `following` flag.
pub open spec fn profile_of(user: UserView, following: bool) -> ProfileView {
    ProfileView { username: user.username, bio: user.bio, image: user.image, following }
}

impl Profile {
    /// The profile of `user` as seen by someone who follows them or not.
    pub fn of(user: &User, following: bool) -> (p: Profile)
        ensures
            p@ == profile_of(user@, following),
    {
        Profile {
            username: user.username.clone(),
            bio: clone_opt(&user.bio),
            image: clone_opt(&user.image),
            following,
        }
    }
}

/// Whether some row has this email.
pub open spec fn email_taken(users: Seq<UserView>, email: Seq<char>) -> bool {
    exists|i: int| 0 <= i < users.len() && #[trigger] users[i].email == email
}

/// Whether some row has this username.
pub open spec fn username_taken(users: Seq<UserView>, username: Seq<char>) -> bool {
    exists|i: int| 0 <= i < users.len() && #[trigger] users[i].username == username
}

/// The row with this email, if there is one.
pub open spec fn user_by_email(users: Seq<UserView>, email: Seq<char>) -> Option<UserView> {
    if email_taken(users, email) {
        Some(users[choose|i: int| 0 <= i < users.len() && #[trigger] users[i].email == email])
    } else {
        None
    }
}

/// The row with this username, if there is one.
pub open spec fn user_by_username(users: Seq<UserView>, username: Seq<char>) -> Option<UserView> {
    if username_taken(users, username) {
        Some(
            users[choose|i: int| 0 <= i < users.len() && #[trigger] users[i].username == username],
        )
    } else {
        None
    }
}

/// The row with this id, if there is one.
pub open spec fn user_by_id(users: Seq<UserView>, id: u128) -> Option<UserView> {
    if id < users.len() {
        Some(users[id as int])
    } else {
        None
    }
}

/// The invariant of the users table: a row's id is its position, and no
/// two rows share an email or a username.
pub open spec fn users_wf(users: Seq<UserView>) -> bool {
    &&& forall|i: int| 0 <= i < users.len() ==> (#[trigger] users[i]).id == i
    &&& forall|i: int, j: int|
        0 <= i < j < users.len() ==> (#[trigger] users[i]).email != (#[trigger] users[j]).email
    &&& forall|i: int, j: int|
        0 <= i < j < users.len() ==> (#[trigger] users[i]).username != (
        #[trigger] users[j]).username
}

/// The view of a result that carries a user.
pub open spec fn user_result(r: Result<User, StoreError>) -> Result<UserView, StoreError> {
    match r {
        Ok(u) => Ok(u@),
        Err(e) => Err(e),
    }
}

/// The view of a result that carries a user and their token.
pub open spec fn session_result(r: Result<(User, Token), StoreError>) -> Result<
    (UserView, Seq<char>),
    StoreError,
> {
    match r {
        Ok((u, t)) => Ok((u@, t@)),
        Err(e) => Err(e),
    }
}

/// The view of a result that carries a profile.
pub open spec fn profile_result(r: Result<Profile, StoreError>) -> Result<ProfileView, StoreError> {
    match r {
        Ok(p) => Ok(p@),
        Err(e) => Err(e),
    }
}

/// The view of an optional user.
pub open spec fn opt_user(o: Option<User>) -> Option<UserView> {
    match o {
        Some(u) => Some(u@),
        None => None,
    }
}

/// The row that `record` becomes when inserted at time `now`: it gets the
/// next id, and neither a bio nor an image.
pub open spec fn new_user(users: Seq<UserView>, record: SignupUserView, now: i64) -> UserView {
    UserView {
        id: users.len() as u128,
        email: record.email,
        username: record.username,
        password: record.password,
        bio: None,
        image: None,
        created_at: now,
        updated_at: now,
    }
}

/// Whether a row other than `id` has the email that `change` brings.
pub open spec fn email_clash(users: Seq<UserView>, id: u128, change: Option<Seq<char>>) -> bool {
    change matches Some(email) && exists|i: int|
        0 <= i < users.len() && i != id && (#[trigger] users[i]).email == email
}

/// Whether a row other than `id` has the username that `change` brings.
pub open spec fn username_clash(users: Seq<UserView>, id: u128, change: Option<Seq<char>>) -> bool {
    change matches Some(username) && exists|i: int|
        0 <= i < users.len() && i != id && (#[trigger] users[i]).username == username
}

/// The user `u` after `changes` were applied at time `now`.
pub open spec fn updated_user(u: UserView, changes: UpdatableUserView, now: i64) -> UserView {
    UserView {
        email: replaced(u.email, changes.email),
        username: replaced(u.username, changes.username),
        password: replaced(u.password, changes.password),
        image: replaced_opt(u.image, changes.image),
        bio: replaced_opt(u.bio, changes.bio),
        updated_at: now,
        ..u
    }
}

/// Why the table refuses to apply `changes` to the user `id`, if it does:
/// `NotFound` where no user has the id, `UniqueConstraintViolation` where
/// another user has the new email or username.
pub open spec fn update_refusal(users: Seq<UserView>, id: u128, changes: UpdatableUserView) -> Option<
    StoreError,
> {
    if id >= users.len() {
        Some(StoreError::NotFound)
    } else if email_clash(users, id, changes.email) || username_clash(users, id, changes.username) {
        Some(StoreError::UniqueConstraintViolation)
    } else {
        None
    }
}

/// What [`UserTable::update`] returns: the refusal, or the user with the
/// changes applied.
pub open spec fn update_outcome(users: Seq<UserView>, id: u128, changes: UpdatableUserView, now: i64) -> Result<
    UserView,
    StoreError,
> {
    match update_refusal(users, id, changes) {
        Some(e) => Err(e),
        None => Ok(updated_user(users[id as int], changes, now)),
    }
}

/// Why the table refuses to take `row` as a user that was stored before,
/// if it does: `ConstraintViolation` where its id is not the next position,
/// `UniqueConstraintViolation` where its email or username is in use.
pub open spec fn restore_refusal(users: Seq<UserView>, row: UserView) -> Option<StoreError> {
    if row.id != users.len() {
        Some(StoreError::ConstraintViolation)
    } else if email_taken(users, row.email) || username_taken(users, row.username) {
        Some(StoreError::UniqueConstraintViolation)
    } else {
        None
    }
}

/// The users after [`UserTable::update`].
pub open spec fn users_after_update(users: Seq<UserView>, id: u128, changes: UpdatableUserView, now: i64) -> Seq<
    UserView,
> {
    match update_outcome(users, id, changes, now) {
        Ok(u) => users.update(id as int, u),
        Err(_) => users,
    }
}

/// What a signup returns, given the hashed password in `record`, the time
/// and the signing secret: the new user and their token, unless the email
/// or the username is in use.
pub open spec fn signup_outcome(users: Seq<UserView>, secret: Seq<u8>, record: SignupUserView, now: i64) -> Result<
    (UserView, Seq<char>),
    StoreError,
> {
    if email_taken(users, record.email) || username_taken(users, record.username) {
        Err(StoreError::UniqueConstraintViolation)
    } else {
        Ok((new_user(users, record, now), token_for(users.len() as u128, now, secret)))
    }
}

/// The users after a signup: one more where it succeeded, else the same.
pub open spec fn users_after_signup(users: Seq<UserView>, secret: Seq<u8>, record: SignupUserView, now: i64) -> Seq<
    UserView,
> {
    match signup_outcome(users, secret, record, now) {
        Ok((u, _)) => users.push(u),
        Err(_) => users,
    }
}

/// What a signin at time `now` returns: the user with this email and their
/// token, `NotFound` where there is no such user, `InvalidCredential`
/// where the password does not match the stored hash.
pub open spec fn signin_outcome(users: Seq<UserView>, secret: Seq<u8>, email: Seq<char>, password: Seq<char>, now: i64) -> Result<
    (UserView, Seq<char>),
    StoreError,
> {
    match user_by_email(users, email) {
        None => Err(StoreError::NotFound),
        Some(u) => if !password_matches(password, u.password) {
            Err(StoreError::InvalidCredential)
        } else {
            Ok((u, token_for(u.id, now, secret)))
        },
    }
}

/// A lookup's result: the row, or `NotFound`.
pub open spec fn found(row: Option<UserView>) -> Result<UserView, StoreError> {
    match row {
        Some(u) => Ok(u),
        None => Err(StoreError::NotFound),
    }
}

/// Whether `stored` is `given` with its password, where it has one,
/// replaced by a bcrypt hash of it that differs from it.
pub open spec fn is_hashed_form(given: UpdatableUserView, stored: UpdatableUserView) -> bool {
    &&& stored.email == given.email
    &&& stored.username == given.username
    &&& stored.image == given.image
    &&& stored.bio == given.bio
    &&& match given.password {
        Some(plaintext) => stored.password matches Some(h) && is_bcrypt_shaped(h)
            && password_matches(plaintext, h) && h != plaintext,
        None => stored.password is None,
    }
}

/// The table of users.
pub struct UserTable {
    rows: Vec<User>,
}

impl View for UserTable {
    type V = Seq<UserView>;

    closed spec fn view(&self) -> Seq<UserView> {
        self.rows@.map_values(|u: User| u@)
    }
}

impl UserTable {
    /// Whether the table's invariant holds.
    pub open spec fn wf(&self) -> bool {
        users_wf(self@)
    }

    /// An empty table.
    pub fn new() -> (t: UserTable)
        ensures
            t@ == Seq::<UserView>::empty(),
            t.wf(),
    {
        let t = UserTable { rows: Vec::new() };
        assert(t@ =~= Seq::<UserView>::empty());
        t
    }

    /// The number of rows.
    pub fn len(&self) -> (n: usize)
        ensures
            n == self@.len(),
    {
        self.rows.len()
    }

    /// The position of the row with this email.
    fn position_by_email(&self, email: &str) -> (r: Option<usize>)
        ensures
            match r {
                Some(i) => i < self@.len() && self@[i as int].email == email@,
                None => !email_taken(self@, email@),
            },
    {
        let mut i: usize = 0;
        while i < self.rows.len()
            invariant
                i <= self.rows.len(),
                forall|k: int| 0 <= k < i ==> (#[trigger] self@[k]).email != email@,
            decreases self.rows.len() - i,
        {
            if same_text(self.rows[i].email.as_str(), email) {
                return Some(i);
            }
            i += 1;
        }
        None
    }

    /// The position of the row with this username.
    fn position_by_username(&self, username: &str) -> (r: Option<usize>)
        ensures
            match r {
                Some(i) => i < self@.len() && self@[i as int].username == username@,
                None => !username_taken(self@, username@),
            },
    {
        let mut i: usize = 0;
        while i < self.rows.len()
            invariant
                i <= self.rows.len(),
                forall|k: int| 0 <= k < i ==> (#[trigger] self@[k]).username != username@,
            decreases self.rows.len() - i,
        {
            if same_text(self.rows[i].username.as_str(), username) {
                return Some(i);
            }
            i += 1;
        }
        None
    }

    /// The row with this id.
    pub fn get(&self, id: u128) -> (r: Option<User>)
        requires
            self.wf(),
        ensures
            opt_user(r) == user_by_id(self@, id),
            r matches Some(u) ==> u.id == id,
    {
        if id < self.rows.len() as u128 {
            Some(self.rows[id as usize].clone())
        } else {
            None
        }
    }

    /// The row with this email.
    pub fn find_by_email(&self, email: &str) -> (r: Option<User>)
        requires
            self.wf(),
        ensures
            opt_user(r) == user_by_email(self@, email@),
    {
        match self.position_by_email(email) {
            Some(i) => Some(self.rows[i].clone()),
            None => None,
        }
    }

    /// The row with this username.
    pub fn find_by_username(&self, username: &str) -> (r: Option<User>)
        requires
            self.wf(),
        ensures
            opt_user(r) == user_by_username(self@, username@),
    {
        match self.position_by_username(username) {
            Some(i) => Some(self.rows[i].clone()),
            None => None,
        }
    }

    /// Inserts `record` as a new user, created at `now`, under the next
    /// id; the password is stored as it is given.
    ///
    /// Fails with `UniqueConstraintViolation`, changing nothing, exactly
    /// where the email or the username is in use.
    pub fn insert(&mut self, record: &SignupUser, now: i64) -> (r: Result<User, StoreError>)
        requires
            old(self).wf(),
        ensures
            final(self).wf(),
            email_taken(old(self)@, record.email@) || username_taken(old(self)@, record.username@)
                ==> r == Err::<User, StoreError>(StoreError::UniqueConstraintViolation)
                && final(self)@ == old(self)@,
            !(email_taken(old(self)@, record.email@) || username_taken(
                old(self)@,
                record.username@,
            )) ==> r is Ok && r->Ok_0@ == new_user(old(self)@, record@, now) && final(self)@
                == old(self)@.push(new_user(old(self)@, record@, now)),
    {
        if self.position_by_email(record.email).is_some() || self.position_by_username(
            record.username,
        ).is_some() {
            return Err(StoreError::UniqueConstraintViolation);
        }
        let user = User {
            id: self.rows.len() as u128,
            email: record.email.to_owned(),
            username: record.username.to_owned(),
            password: record.password.to_owned(),
            bio: None,
            image: None,
            created_at: now,
            updated_at: now,
        };
        self.rows.push(user.clone());
        assert(self@ =~= old(self)@.push(user@));
        Ok(user)
    }

    /// Puts back a user that was stored before, as it is, unless the table
    /// refuses the row, which changes nothing.
    pub fn restore(&mut self, row: User) -> (r: Result<(), StoreError>)
        requires
            old(self).wf(),
        ensures
            final(self).wf(),
            match restore_refusal(old(self)@, row@) {
                Some(e) => r == Err::<(), StoreError>(e) && final(self)@ == old(self)@,
                None => r is Ok && final(self)@ == old(self)@.push(row@),
            },
    {
        if row.id != self.rows.len() as u128 {
            return Err(StoreError::ConstraintViolation);
        }
        if self.position_by_email(row.email.as_str()).is_some() || self.position_by_username(
            row.username.as_str(),
        ).is_some() {
            return Err(StoreError::UniqueConstraintViolation);
        }
        let ghost view = row@;
        self.rows.push(row);
        assert(self@ =~= old(self)@.push(view));
        Ok(())
    }

    /// Why the table refuses to apply `changes` to the user with this id,
    /// if it does.
    pub fn refusal(&self, id: u128, changes: &UpdatableUser) -> (r: Option<StoreError>)
        requires
            self.wf(),
        ensures
            r == update_refusal(self@, id, changes@),
    {
        if id >= self.rows.len() as u128 {
            return Some(StoreError::NotFound);
        }
        let at = id as usize;
        let email_clashes = match &changes.email {
            Some(email) => match self.position_by_email(email.as_str()) {
                Some(i) => i != at,
                None => false,
            },
            None => false,
        };
        let username_clashes = match &changes.username {
            Some(username) => match self.position_by_username(username.as_str()) {
                Some(i) => i != at,
                None => false,
            },
            None => false,
        };
        if email_clashes || username_clashes {
            Some(StoreError::UniqueConstraintViolation)
        } else {
            None
        }
    }

    /// Applies `changes` to the user with this id, at time `now`; the
    /// password, where one is given, is stored as it is given.
    ///
    /// Fails with `NotFound` where no user has the id, and with
    /// `UniqueConstraintViolation` where another user has the new email or
    /// username; a failure changes nothing.
    pub fn update(&mut self, id: u128, changes: &UpdatableUser, now: i64) -> (r: Result<
        User,
        StoreError,
    >)
        requires
            old(self).wf(),
        ensures
            final(self).wf(),
            user_result(r) == update_outcome(old(self)@, id, changes@, now),
            final(self)@ == users_after_update(old(self)@, id, changes@, now),
    {
        match self.refusal(id, changes) {
            Some(e) => {
                return Err(e);
            },
            None => {},
        }
        let n = self.rows.len();
        assert(id < n);
        let at = id as usize;
        let stored = &self.rows[at];
        let user = User {
            id: stored.id,
            email: replace_text(&stored.email, &changes.email),
            username: replace_text(&stored.username, &changes.username),
            password: replace_text(&stored.password, &changes.password),
            bio: replace_opt(&stored.bio, &changes.bio),
            image: replace_opt(&stored.image, &changes.image),
            created_at: stored.created_at,
            updated_at: now,
        };
        self.rows[at] = user.clone();
        assert(self@ =~= old(self)@.update(at as int, user@));
        Ok(user)
    }
}

impl User {
    /// Creates an account and signs it in.
    ///
    /// This fails with `UniqueConstraintViolation` exactly where the email
    /// or the username is in use. Otherwise the password is hashed, the
    /// row inserted as [`signup_outcome`] says for that hash and the time
    /// `now`, and a token issued; should the hasher fail, the failure is
    /// `Unexpected`. A failure changes nothing. The password stored is
    /// never the plaintext.
    pub fn signup(
        conn: &mut Store,
        email: &str,
        username: &str,
        naive_password: &str,
        now: i64,
    ) -> (r: Result<(User, Token), StoreError>)
        requires
            old(conn).wf(),
        ensures
            final(conn).wf(),
            final(conn).follows == old(conn).follows,
            final(conn).articles == old(conn).articles,
            final(conn).secret == old(conn).secret,
            (r is Err && r->Err_0 == StoreError::UniqueConstraintViolation) == (email_taken(
                old(conn).users@,
                email@,
            ) || username_taken(old(conn).users@, username@)),
            r is Err ==> final(conn).users@ == old(conn).users@ && (r->Err_0
                == StoreError::UniqueConstraintViolation || r->Err_0 == StoreError::Unexpected),
            r is Ok ==> exists|hashed: Seq<char>|
                {
                    &&& is_bcrypt_shaped(hashed)
                    &&& password_matches(naive_password@, hashed)
                    &&& hashed != naive_password@
                    &&& session_result(r) == #[trigger] signup_outcome(
                        old(conn).users@,
                        old(conn).secret@,
                        SignupUserView { email: email@, username: username@, password: hashed },
                        now,
                    )
                    &&& final(conn).users@ == users_after_signup(
                        old(conn).users@,
                        old(conn).secret@,
                        SignupUserView { email: email@, username: username@, password: hashed },
                        now,
                    )
                },
            r is Ok ==> r->Ok_0.0@.password != naive_password@,
    {
        if conn.users.position_by_email(email).is_some() || conn.users.position_by_username(
            username,
        ).is_some() {
            return Err(StoreError::UniqueConstraintViolation);
        }
        let hashed_password = match hash(naive_password) {
            Ok(h) => h,
            Err(e) => {
                return Err(e);
            },
        };
        let record = SignupUser { email, username, password: hashed_password.as_str() };
        let r = Self::signup_with(conn, &record, now);
        proof {
            assert(session_result(r) == signup_outcome(
                old(conn).users@,
                old(conn).secret@,
                record@,
                now,
            ));
        }
        r
    }

    /// Creates an account from a record whose password is already hashed,
    /// at time `now`, and signs it in: the result is [`signup_outcome`],
    /// and the users afterwards are [`users_after_signup`].
    pub fn signup_with(conn: &mut Store, record: &SignupUser, now: i64) -> (r: Result<
        (User, Token),
        StoreError,
    >)
        requires
            old(conn).wf(),
        ensures
            final(conn).wf(),
            final(conn).follows == old(conn).follows,
            final(conn).articles == old(conn).articles,
            final(conn).secret == old(conn).secret,
            session_result(r) == signup_outcome(old(conn).users@, old(conn).secret@, record@, now),
            final(conn).users@ == users_after_signup(
                old(conn).users@,
                old(conn).secret@,
                record@,
                now,
            ),
    {
        if conn.users.position_by_email(record.email).is_some()
            || conn.users.position_by_username(record.username).is_some() {
            return Err(StoreError::UniqueConstraintViolation);
        }
        let id = conn.users.len() as u128;
        let token = issue_token(id, now, conn.secret.as_slice());
        match conn.users.insert(record, now) {
            Ok(user) => Ok((user, token)),
            Err(e) => Err(e),
        }
    }

    /// Signs in with an email and a password at time `now`.
    ///
    /// Fails with `NotFound` where no user has the email, and with
    /// `InvalidCredential` where the password does not match the stored
    /// hash; succeeds otherwise.
    pub fn signin(conn: &Store, email: &str, naive_password: &str, now: i64) -> (r: Result<
        (User, Token),
        StoreError,
    >)
        requires
            conn.wf(),
        ensures
            session_result(r) == signin_outcome(
                conn.users@,
                conn.secret@,
                email@,
                naive_password@,
                now,
            ),
    {
        let user = match conn.users.find_by_email(email) {
            Some(u) => u,
            None => {
                return Err(StoreError::NotFound);
            },
        };
        if !verify(naive_password, user.password.as_str()) {
            return Err(StoreError::InvalidCredential);
        }
        let token = issue_token(user.id, now, conn.secret.as_slice());
        Ok((user, token))
    }

    /// The user with this id, or `NotFound`.
    pub fn find_by_id(conn: &Store, id: u128) -> (r: Result<User, StoreError>)
        requires
            conn.wf(),
        ensures
            user_result(r) == found(user_by_id(conn.users@, id)),
            r matches Ok(u) ==> u.id == id,
    {
        match conn.users.get(id) {
            Some(u) => Ok(u),
            None => Err(StoreError::NotFound),
        }
    }

    /// Applies the fields of `changeset` that are `Some` to the user with
    /// this id, as of the time `now`. A new password is hashed before it is
    /// stored.
    ///
    /// Where the table refuses the changes, as [`update_refusal`] says, that
    /// is the failure, and no hash is made. Otherwise the result is
    /// [`update_outcome`]: of the changeset itself where it brings no
    /// password, else of its hashed form; should the hasher fail, the
    /// failure is `Unexpected`. A failure changes nothing.
    pub fn update(conn: &mut Store, user_id: u128, changeset: UpdatableUser, now: i64) -> (r:
        Result<User, StoreError>)
        requires
            old(conn).wf(),
        ensures
            final(conn).wf(),
            final(conn).follows == old(conn).follows,
            final(conn).articles == old(conn).articles,
            final(conn).secret == old(conn).secret,
            r is Err ==> final(conn).users@ == old(conn).users@,
            update_refusal(old(conn).users@, user_id, changeset@) matches Some(e) ==> r is Err
                && r->Err_0 == e,
            changeset@.password is None ==> user_result(r) == update_outcome(
                old(conn).users@,
                user_id,
                changeset@,
                now,
            ) && final(conn).users@ == users_after_update(
                old(conn).users@,
                user_id,
                changeset@,
                now,
            ),
            update_refusal(old(conn).users@, user_id, changeset@) is None ==> (r is Err
                && r->Err_0 == StoreError::Unexpected && changeset@.password is Some) || exists|
                stored: UpdatableUserView,
            |
                {
                    &&& is_hashed_form(changeset@, stored)
                    &&& user_result(r) == #[trigger] update_outcome(
                        old(conn).users@,
                        user_id,
                        stored,
                        now,
                    )
                    &&& final(conn).users@ == users_after_update(
                        old(conn).users@,
                        user_id,
                        stored,
                        now,
                    )
                },
    {
        match conn.users.refusal(user_id, &changeset) {
            Some(e) => {
                return Err(e);
            },
            None => {},
        }
        let password = match &changeset.password {
            Some(plaintext) => match hash(plaintext.as_str()) {
                Ok(h) => Some(h),
                Err(e) => {
                    return Err(e);
                },
            },
            None => None,
        };
        let stored = UpdatableUser {
            email: changeset.email,
            username: changeset.username,
            password,
            image: changeset.image,
            bio: changeset.bio,
        };
        let r = conn.users.update(user_id, &stored, now);
        proof {
            assert(is_hashed_form(changeset@, stored@));
            assert(changeset@.password is None ==> stored@ == changeset@);
            assert(user_result(r) == update_outcome(old(conn).users@, user_id, stored@, now));
        }
        r
    }

    /// The user with this username, or `NotFound`.
    pub fn find_by_username(conn: &Store, username: &str) -> (r: Result<User, StoreError>)
        requires
            conn.wf(),
        ensures
            user_result(r) == found(user_by_username(conn.users@, username@)),
    {
        match conn.users.find_by_username(username) {
            Some(u) => Ok(u),
            None => Err(StoreError::NotFound),
        }
    }

    /// Makes this user follow the user named `username`, as of the time
    /// `now`, and returns the followed user's profile, marked as followed.
    ///
    /// Fails with `NotFound` where nobody has that name, and with
    /// `ConstraintViolation` where this user follows them already; a
    /// failure changes nothing.
    pub fn follow(&self, conn: &mut Store, username: &str, now: i64) -> (r: Result<
        Profile,
        StoreError,
    >)
        requires
            old(conn).wf(),
        ensures
            final(conn).wf(),
            final(conn).users == old(conn).users,
            final(conn).articles == old(conn).articles,
            final(conn).secret == old(conn).secret,
            match user_by_username(old(conn).users@, username@) {
                None => profile_result(r) == Err::<ProfileView, StoreError>(StoreError::NotFound)
                    && final(conn).follows@ == old(conn).follows@,
                Some(target) => if follows(old(conn).follows@, self.id, target.id) {
                    profile_result(r) == Err::<ProfileView, StoreError>(
                        StoreError::ConstraintViolation,
                    ) && final(conn).follows@ == old(conn).follows@
                } else {
                    &&& profile_result(r) == Ok::<ProfileView, StoreError>(profile_of(target, true))
                    &&& follows(final(conn).follows@, self.id, target.id)
                    &&& final(conn).follows@ == after_follow(
                        old(conn).follows@,
                        NewFollow { follower_id: self.id, followee_id: target.id },
                        now,
                    )
                },
            },
    {
        let followee = match conn.users.find_by_username(username) {
            Some(u) => u,
            None => {
                return Err(StoreError::NotFound);
            },
        };
        let params = NewFollow { follower_id: self.id, followee_id: followee.id };
        match Follow::create_follow(conn, &params, now) {
            Ok(()) => Ok(Profile::of(&followee, true)),
            Err(e) => Err(e),
        }
    }

    /// Makes this user no longer follow the user named `username`, and
    /// returns that user's profile, marked as not followed. Where this user
    /// did not follow them, nothing changes.
    ///
    /// Fails with `NotFound` where nobody has that name.
    pub fn unfollow(&self, conn: &mut Store, username: &str) -> (r: Result<Profile, StoreError>)
        requires
            old(conn).wf(),
        ensures
            final(conn).wf(),
            final(conn).users == old(conn).users,
            final(conn).articles == old(conn).articles,
            final(conn).secret == old(conn).secret,
            match user_by_username(old(conn).users@, username@) {
                None => profile_result(r) == Err::<ProfileView, StoreError>(StoreError::NotFound)
                    && final(conn).follows@ == old(conn).follows@,
                Some(target) => {
                    &&& profile_result(r) == Ok::<ProfileView, StoreError>(profile_of(target, false))
                    &&& !follows(final(conn).follows@, self.id, target.id)
                    &&& final(conn).follows@ == after_unfollow(
                        old(conn).follows@,
                        DeleteFollow { follower_id: self.id, followee_id: target.id },
                    )
                },
            },
    {
        let followee = match conn.users.find_by_username(username) {
            Some(u) => u,
            None => {
                return Err(StoreError::NotFound);
            },
        };
        let params = DeleteFollow { followee_id: followee.id, follower_id: self.id };
        Follow::delete_follow(conn, &params);
        Ok(Profile::of(&followee, false))
    }

    /// Whether this user follows the user with id `followee_id`.
    pub fn is_following(&self, conn: &Store, followee_id: &u128) -> (r: bool)
        ensures
            r == follows(conn.follows@, self.id, *followee_id),
    {
        conn.follows.contains(self.id, *followee_id)
    }

    /// Issues a token for this user, stamped with the time `now`.
    pub fn generate_token(&self, secret: &[u8], now: i64) -> (token: Token)
        ensures
            token@ == token_for(self.id, now, secret@),
    {
        issue_token(self.id, now, secret)
    }
}

/// A signup with an unused email and username succeeds, in any table that
/// memory can hold: the new user is appended under the next id, which no
/// user had, with the password as the record has it, and the token is
/// theirs.
pub proof fn lemma_signup_succeeds(
    users: Seq<UserView>,
    secret: Seq<u8>,
    record: SignupUserView,
    now: i64,
)
    requires
        users_wf(users),
        users.len() <= usize::MAX,
        !email_taken(users, record.email),
        !username_taken(users, record.username),
    ensures
        signup_outcome(users, secret, record, now) == Ok::<(UserView, Seq<char>), StoreError>(
            (new_user(users, record, now), token_for(users.len() as u128, now, secret)),
        ),
        users_after_signup(users, secret, record, now) == users.push(new_user(users, record, now)),
        forall|i: int| 0 <= i < users.len() ==> (#[trigger] users[i]).id != new_user(
            users,
            record,
            now,
        ).id,
        users_wf(users_after_signup(users, secret, record, now)),
{
    let after = users.push(new_user(users, record, now));
    assert forall|i: int, j: int| 0 <= i < j < after.len() implies (#[trigger] after[i]).email != (
    #[trigger] after[j]).email && after[i].username != after[j].username by {
        if j < users.len() {
            assert(users[i].email != users[j].email);
            assert(users[i].username != users[j].username);
        } else {
            assert(users[i].email != record.email);
            assert(users[i].username != record.username);
        }
    }
}

/// After a signup that succeeded, a signin with the same email finds the
/// new account: it succeeds with a password that matches the stored hash,
/// and fails with `InvalidCredential` with one that does not.
pub proof fn lemma_signin_after_signup(
    users: Seq<UserView>,
    secret: Seq<u8>,
    record: SignupUserView,
    now: i64,
    password: Seq<char>,
    later: i64,
)
    requires
        users_wf(users),
        signup_outcome(users, secret, record, now) is Ok,
    ensures
        ({
            let after = users_after_signup(users, secret, record, now);
            let user = new_user(users, record, now);
            signin_outcome(after, secret, record.email, password, later) == if password_matches(
                password,
                record.password,
            ) {
                Ok::<(UserView, Seq<char>), StoreError>((user, token_for(user.id, later, secret)))
            } else {
                Err::<(UserView, Seq<char>), StoreError>(StoreError::InvalidCredential)
            }
        }),
{
    let after = users_after_signup(users, secret, record, now);
    let user = new_user(users, record, now);
    assert(after[users.len() as int].email == record.email);
    let i = choose|i: int| 0 <= i < after.len() && #[trigger] after[i].email == record.email;
    if i < users.len() {
        assert(users[i].email == record.email);
    }
}

/// A signin with an email that no user has fails with `NotFound`.
pub proof fn lemma_signin_unknown_email(
    users: Seq<UserView>,
    secret: Seq<u8>,
    email: Seq<char>,
    password: Seq<char>,
    now: i64,
)
    requires
        !email_taken(users, email),
    ensures
        signin_outcome(users, secret, email, password, now) == Err::<
            (UserView, Seq<char>),
            StoreError,
        >(StoreError::NotFound),
{
}

} // verus!
