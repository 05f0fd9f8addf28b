//! The store: the tables of the backend and the key that signs its tokens.

use crate::article::{ArticleTable, ArticleView};
use crate::follow::FollowTable;
use crate::user::{UserTable, UserView};
use vstd::prelude::*;

verus! {

/// Whether the author of every article is a user.
pub open spec fn authors_exist(articles: Seq<ArticleView>, users: Seq<UserView>) -> bool {
    forall|i: int| 0 <= i < articles.len() ==> (#[trigger] articles[i]).author_id < users.len()
}

/// Everything the backend keeps: users, follows, articles with their tags,
/// and the secret under which session tokens are signed.
///
/// Each table keeps its own invariant whatever is done to it. That every
/// article's author is a user holds as long as articles come into the
/// store through [`crate::api::create`], [`crate::api::create_with_tags`]
/// or [`crate::api::restore_article`].
pub struct Store {
    pub users: UserTable,
    pub follows: FollowTable,
    pub articles: ArticleTable,
    pub secret: Vec<u8>,
}

impl Store {
    /// Whether each table's invariant holds and every article has its
    /// author among the users.
    pub open spec fn wf(&self) -> bool {
        &&& self.users.wf()
        &&& self.follows.wf()
        &&& self.articles.wf()
        &&& authors_exist(self.articles@.articles, self.users@)
    }

    /// An empty store that signs with `secret`.
    pub fn new(secret: Vec<u8>) -> (store: Store)
        ensures
            store.wf(),
            store.users@.len() == 0,
            store.follows@.len() == 0,
            store.articles@.articles.len() == 0,
            store.articles@.tags.len() == 0,
            store.articles@.links.len() == 0,
            store.articles@.next_id == 0,
            store.secret@ == secret@,
    {
        Store {
            users: UserTable::new(),
            follows: FollowTable::new(),
            articles: ArticleTable::new(),
            secret,
        }
    }
}

} // verus!
