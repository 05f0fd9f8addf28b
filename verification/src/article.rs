//! Articles and their tags: the records, and the table that holds the
//! articles, the tags and the links between them.

use crate::error::StoreError;
use crate::grouping::{
    child_of_link, child_views, contains_id, linked_to_any, tags_belonging_to, TagOfArticle,
};
use crate::seqs::{
    lemma_filter_all, lemma_filter_distinct, lemma_filter_kept, lemma_filter_none, lemma_map_push,
};
use crate::slug::{slug_of, slugify};
use crate::text::{opt_text, replace_text, replaced, same_text};
use vstd::prelude::*;

verus! {

/// A published article.
#[derive(Debug)]
pub struct Article {
    pub id: u128,
    pub author_id: u128,
    pub title: String,
    /// Always the slug of `title`.
    pub slug: String,
    pub description: String,
    pub body: String,
    pub created_at: i64,
    pub updated_at: i64,
}

/// What an [`Article`] holds, as mathematical values.
pub struct ArticleView {
    pub id: u128,
    pub author_id: u128,
    pub title: Seq<char>,
    pub slug: Seq<char>,
    pub description: Seq<char>,
    pub body: Seq<char>,
    pub created_at: i64,
    pub updated_at: i64,
}

impl View for Article {
    type V = ArticleView;

    open spec fn view(&self) -> ArticleView {
        ArticleView {
            id: self.id,
            author_id: self.author_id,
            title: self.title@,
            slug: self.slug@,
            description: self.description@,
            body: self.body@,
            created_at: self.created_at,
            updated_at: self.updated_at,
        }
    }
}

impl Clone for Article {
    fn clone(&self) -> (r: Self)
        ensures
            r == *self,
    {
        Article {
            id: self.id,
            author_id: self.author_id,
            title: self.title.clone(),
            slug: self.slug.clone(),
            description: self.description.clone(),
            body: self.body.clone(),
            created_at: self.created_at,
            updated_at: self.updated_at,
        }
    }
}

impl Article {
    /// Derives the slug of a title.
    pub fn convert_title_to_slug(title: &str) -> (slug: String)
        ensures
            slug@ == slug_of(title@),
    {
        slugify(title)
    }
}

/// The fields of an article to be created.
#[derive(Debug)]
pub struct NewArticle {
    pub author_id: u128,
    pub title: String,
    pub slug: String,
    pub description: String,
    pub body: String,
}

/// What a [`NewArticle`] holds, as mathematical values.
pub struct NewArticleView {
    pub author_id: u128,
    pub title: Seq<char>,
    pub slug: Seq<char>,
    pub description: Seq<char>,
    pub body: Seq<char>,
}

impl View for NewArticle {
    type V = NewArticleView;

    open spec fn view(&self) -> NewArticleView {
        NewArticleView {
            author_id: self.author_id,
            title: self.title@,
            slug: self.slug@,
            description: self.description@,
            body: self.body@,
        }
    }
}

/// A partial update of an article: each field that is `Some` replaces the
/// stored one.
#[derive(Debug)]
pub struct UpdateArticle {
    pub slug: Option<String>,
    pub title: Option<String>,
    pub description: Option<String>,
    pub body: Option<String>,
}

/// What an [`UpdateArticle`] holds, as mathematical values.
pub struct UpdateArticleView {
    pub slug: Option<Seq<char>>,
    pub title: Option<Seq<char>>,
    pub description: Option<Seq<char>>,
    pub body: Option<Seq<char>>,
}

impl View for UpdateArticle {
    type V = UpdateArticleView;

    open spec fn view(&self) -> UpdateArticleView {
        UpdateArticleView {
            slug: opt_text(self.slug),
            title: opt_text(self.title),
            description: opt_text(self.description),
            body: opt_text(self.body),
        }
    }
}

/// A tag, shared by the articles that carry it.
#[derive(Debug)]
pub struct Tag {
    pub id: u128,
    pub name: String,
    pub created_at: i64,
    pub updated_at: i64,
}

/// What a [`Tag`] holds, as mathematical values.
pub struct TagView {
    pub id: u128,
    pub name: Seq<char>,
    pub created_at: i64,
    pub updated_at: i64,
}

impl View for Tag {
    type V = TagView;

    open spec fn view(&self) -> TagView {
        TagView {
            id: self.id,
            name: self.name@,
            created_at: self.created_at,
            updated_at: self.updated_at,
        }
    }
}

impl Clone for Tag {
    fn clone(&self) -> (r: Self)
        ensures
            r == *self,
    {
        Tag {
            id: self.id,
            name: self.name.clone(),
            created_at: self.created_at,
            updated_at: self.updated_at,
        }
    }
}

/// The views of a list of tags.
pub open spec fn tag_views(tags: Seq<Tag>) -> Seq<TagView> {
    tags.map_values(|t: Tag| t@)
}

/// A row of the association table: the article carries the tag.
#[derive(Clone, Copy, Debug, PartialEq, Eq, Structural)]
pub struct ArticleTag {
    pub article_id: u128,
    pub tag_id: u128,
}

/// The views of a list of articles.
pub open spec fn article_views(articles: Seq<Article>) -> Seq<ArticleView> {
    articles.map_values(|a: Article| a@)
}

/// What an [`ArticleTable`] holds, as mathematical values.
pub struct ArticleTableView {
    /// The articles, oldest first.
    pub articles: Seq<ArticleView>,
    /// The tags, oldest first.
    pub tags: Seq<TagView>,
    /// The association rows, oldest first.
    pub links: Seq<ArticleTag>,
    /// The id that the next article gets.
    pub next_id: u128,
}

/// Whether some article has this id.
pub open spec fn has_article(articles: Seq<ArticleView>, id: u128) -> bool {
    exists|i: int| 0 <= i < articles.len() && (#[trigger] articles[i]).id == id
}

/// The position of the article with this id, where there is one.
pub open spec fn article_position(articles: Seq<ArticleView>, id: u128) -> int {
    choose|i: int| 0 <= i < articles.len() && (#[trigger] articles[i]).id == id
}

/// The invariant of the table.
///
/// Articles stand in the order of their ids, all below the next id, and
/// each has the slug of its title. A tag's id is its position, and no two
/// tags share a name. Every link joins an article and a tag that exist, and
/// no link occurs twice.
pub open spec fn articles_wf(t: ArticleTableView) -> bool {
    &&& forall|i: int, j: int|
        0 <= i < j < t.articles.len() ==> (#[trigger] t.articles[i]).id < (
        #[trigger] t.articles[j]).id
    &&& forall|i: int| 0 <= i < t.articles.len() ==> (#[trigger] t.articles[i]).id < t.next_id
    &&& forall|i: int|
        0 <= i < t.articles.len() ==> (#[trigger] t.articles[i]).slug == slug_of(
            t.articles[i].title,
        )
    &&& forall|i: int| 0 <= i < t.tags.len() ==> (#[trigger] t.tags[i]).id == i
    &&& forall|i: int, j: int|
        0 <= i < j < t.tags.len() ==> (#[trigger] t.tags[i]).name != (#[trigger] t.tags[j]).name
    &&& forall|k: int|
        0 <= k < t.links.len() ==> has_article(t.articles, (#[trigger] t.links[k]).article_id)
            && t.links[k].tag_id < t.tags.len()
    &&& forall|k: int, m: int|
        0 <= k < m < t.links.len() ==> #[trigger] t.links[k] != #[trigger] t.links[m]
}

/// Whether the table takes `record` as a new article: its slug is the slug
/// of its title, and an id is left to give.
pub open spec fn accepts_new(t: ArticleTableView, record: NewArticleView) -> bool {
    record.slug == slug_of(record.title) && t.next_id < u128::MAX
}

/// The article that `record` becomes when inserted at time `now`.
pub open spec fn inserted_article(t: ArticleTableView, record: NewArticleView, now: i64) -> ArticleView {
    ArticleView {
        id: t.next_id,
        author_id: record.author_id,
        title: record.title,
        slug: record.slug,
        description: record.description,
        body: record.body,
        created_at: now,
        updated_at: now,
    }
}

/// The table after `record` was inserted at time `now`.
pub open spec fn after_insert(t: ArticleTableView, record: NewArticleView, now: i64) -> ArticleTableView {
    ArticleTableView {
        articles: t.articles.push(inserted_article(t, record, now)),
        next_id: (t.next_id + 1) as u128,
        ..t
    }
}

/// Whether an update is consistent: it brings a slug exactly when it
/// brings a title, and then the slug of that title.
pub open spec fn consistent_update(changes: UpdateArticleView) -> bool {
    changes.slug == match changes.title {
        Some(title) => Some(slug_of(title)),
        None => None,
    }
}

/// The article `a` after `changes` were applied at time `now`.
pub open spec fn updated_article(a: ArticleView, changes: UpdateArticleView, now: i64) -> ArticleView {
    ArticleView {
        title: replaced(a.title, changes.title),
        slug: replaced(a.slug, changes.slug),
        description: replaced(a.description, changes.description),
        body: replaced(a.body, changes.body),
        updated_at: now,
        ..a
    }
}

/// The table after the article with this id took `changes` at time `now`.
pub open spec fn after_update(t: ArticleTableView, id: u128, changes: UpdateArticleView, now: i64) -> ArticleTableView {
    let i = article_position(t.articles, id);
    ArticleTableView {
        articles: t.articles.update(i, updated_article(t.articles[i], changes, now)),
        ..t
    }
}

/// The test that keeps every article but the one with this id.
pub open spec fn other_than(id: u128) -> spec_fn(ArticleView) -> bool {
    |a: ArticleView| a.id != id
}

/// The test that keeps the links of every article but this one.
pub open spec fn not_linked_to(id: u128) -> spec_fn(ArticleTag) -> bool {
    |l: ArticleTag| l.article_id != id
}

/// The test that keeps the links of this article.
pub open spec fn linked_to(id: u128) -> spec_fn(ArticleTag) -> bool {
    |l: ArticleTag| l.article_id == id
}

/// The table after the article with this id was deleted, and with it
/// every link to it.
pub open spec fn after_delete(t: ArticleTableView, id: u128) -> ArticleTableView {
    ArticleTableView {
        articles: t.articles.filter(other_than(id)),
        links: t.links.filter(not_linked_to(id)),
        ..t
    }
}

/// Whether some tag has this name.
pub open spec fn tag_known(tags: Seq<TagView>, name: Seq<char>) -> bool {
    exists|i: int| 0 <= i < tags.len() && (#[trigger] tags[i]).name == name
}

/// The tag that `name` resolves to at time `now`: the one of that name, or
/// a new one at the end of the table.
pub open spec fn resolved_tag(tags: Seq<TagView>, name: Seq<char>, now: i64) -> TagView {
    if tag_known(tags, name) {
        tags[choose|i: int| 0 <= i < tags.len() && (#[trigger] tags[i]).name == name]
    } else {
        TagView { id: tags.len() as u128, name, created_at: now, updated_at: now }
    }
}

/// The table after `name` was made a tag at time `now`, unless it was one.
pub open spec fn after_naming(t: ArticleTableView, name: Seq<char>, now: i64) -> ArticleTableView {
    ArticleTableView {
        tags: if tag_known(t.tags, name) {
            t.tags
        } else {
            t.tags.push(resolved_tag(t.tags, name, now))
        },
        ..t
    }
}

/// Whether the table takes `row` as an article that was stored before:
/// its id is one that was never given and leaves one to give, and its slug
/// is the slug of its title.
pub open spec fn accepts_stored_article(t: ArticleTableView, row: ArticleView) -> bool {
    t.next_id <= row.id < u128::MAX && row.slug == slug_of(row.title)
}

/// The table after `row` was put back: it is the last article, and the
/// next id is the one after its own.
pub open spec fn after_restoring_article(t: ArticleTableView, row: ArticleView) -> ArticleTableView {
    ArticleTableView { articles: t.articles.push(row), next_id: (row.id + 1) as u128, ..t }
}

/// Whether the table takes `row` as a tag that was stored before: its id
/// is the next position, and its name is new.
pub open spec fn accepts_stored_tag(t: ArticleTableView, row: TagView) -> bool {
    row.id == t.tags.len() && !tag_known(t.tags, row.name)
}

/// Whether the table takes `link` as a link that was stored before: it
/// joins an article and a tag that exist, and is new.
pub open spec fn accepts_stored_link(t: ArticleTableView, link: ArticleTag) -> bool {
    has_article(t.articles, link.article_id) && link.tag_id < t.tags.len() && !t.links.contains(
        link,
    )
}

/// The table after the article with this id was tagged `name` at time
/// `now`: the tag is created unless it exists, and linked unless it is.
pub open spec fn after_tagging(t: ArticleTableView, article_id: u128, name: Seq<char>, now: i64) -> ArticleTableView {
    let tag = resolved_tag(t.tags, name, now);
    let link = ArticleTag { article_id, tag_id: tag.id };
    ArticleTableView {
        tags: if tag_known(t.tags, name) {
            t.tags
        } else {
            t.tags.push(tag)
        },
        links: if t.links.contains(link) {
            t.links
        } else {
            t.links.push(link)
        },
        ..t
    }
}

/// The table after the article with this id was tagged with each of
/// `names` in turn, at time `now`.
pub open spec fn after_tagging_all(
    t: ArticleTableView,
    article_id: u128,
    names: Seq<Seq<char>>,
    now: i64,
) -> ArticleTableView
    decreases names.len(),
{
    if names.len() == 0 {
        t
    } else {
        after_tagging(
            after_tagging_all(t, article_id, names.drop_last(), now),
            article_id,
            names.last(),
            now,
        )
    }
}

/// The function from a link to the tag it names.
pub open spec fn tag_of_link(tags: Seq<TagView>) -> spec_fn(ArticleTag) -> TagView {
    |l: ArticleTag| tags[l.tag_id as int]
}

/// The tags of an article, in the order in which they were linked.
pub open spec fn tags_of(t: ArticleTableView, article_id: u128) -> Seq<TagView> {
    t.links.filter(linked_to(article_id)).map_values(tag_of_link(t.tags))
}

/// The rows `offset ..< offset + limit` of a table, as far as they exist.
pub open spec fn page_of<T>(rows: Seq<T>, offset: usize, limit: usize) -> Seq<T> {
    let lo = if offset <= rows.len() {
        offset as int
    } else {
        rows.len() as int
    };
    let hi = if offset + limit <= rows.len() {
        offset + limit
    } else {
        rows.len() as int
    };
    rows.subrange(lo, hi)
}

/// The table of articles, with the tags and the links between the two.
pub struct ArticleTable {
    articles: Vec<Article>,
    tags: Vec<Tag>,
    links: Vec<ArticleTag>,
    next_id: u128,
}

impl View for ArticleTable {
    type V = ArticleTableView;

    closed spec fn view(&self) -> ArticleTableView {
        ArticleTableView {
            articles: article_views(self.articles@),
            tags: tag_views(self.tags@),
            links: self.links@,
            next_id: self.next_id,
        }
    }
}

impl ArticleTable {
    /// Whether the table's invariant holds.
    pub open spec fn wf(&self) -> bool {
        articles_wf(self@)
    }

    /// An empty table.
    pub fn new() -> (t: ArticleTable)
        ensures
            t@.articles.len() == 0,
            t@.tags.len() == 0,
            t@.links.len() == 0,
            t@.next_id == 0,
            t.wf(),
    {
        ArticleTable { articles: Vec::new(), tags: Vec::new(), links: Vec::new(), next_id: 0 }
    }

    /// The number of articles.
    pub fn count(&self) -> (n: usize)
        ensures
            n == self@.articles.len(),
    {
        self.articles.len()
    }

    /// The position of the article with this id.
    fn position(&self, id: u128) -> (r: Option<usize>)
        ensures
            match r {
                Some(i) => i < self@.articles.len() && self@.articles[i as int].id == id,
                None => !has_article(self@.articles, id),
            },
    {
        let mut i: usize = 0;
        while i < self.articles.len()
            invariant
                i <= self.articles.len(),
                forall|k: int| 0 <= k < i ==> (#[trigger] self@.articles[k]).id != id,
            decreases self.articles.len() - i,
        {
            if self.articles[i].id == id {
                return Some(i);
            }
            i += 1;
        }
        None
    }

    /// The article with this id.
    pub fn get(&self, id: u128) -> (r: Option<Article>)
        requires
            self.wf(),
        ensures
            r.is_some() == has_article(self@.articles, id),
            r matches Some(a) ==> a@ == self@.articles[article_position(self@.articles, id)],
    {
        match self.position(id) {
            Some(i) => Some(self.articles[i].clone()),
            None => None,
        }
    }

    /// A page of articles, oldest first.
    pub fn page(&self, offset: usize, limit: usize) -> (r: Vec<Article>)
        ensures
            article_views(r@) == page_of(self@.articles, offset, limit),
    {
        let n = self.articles.len();
        let lo = if offset <= n {
            offset
        } else {
            n
        };
        let hi = if limit <= n - lo {
            lo + limit
        } else {
            n
        };
        let mut r: Vec<Article> = Vec::new();
        let mut i = lo;
        while i < hi
            invariant
                lo <= i <= hi <= n,
                n == self.articles.len(),
                r@.len() == i - lo,
                forall|k: int| 0 <= k < r@.len() ==> (#[trigger] r@[k]) == self.articles@[lo + k],
            decreases hi - i,
        {
            r.push(self.articles[i].clone());
            i += 1;
        }
        assert(article_views(r@) =~= page_of(self@.articles, offset, limit));
        r
    }

    /// Inserts `record` as a new article, created at `now`, under the next
    /// id. A record that the table does not accept is refused with
    /// `ConstraintViolation`.
    pub fn insert(&mut self, record: &NewArticle, now: i64) -> (r: Result<Article, StoreError>)
        requires
            old(self).wf(),
        ensures
            final(self).wf(),
            accepts_new(old(self)@, record@) ==> final(self)@ == after_insert(
                old(self)@,
                record@,
                now,
            ) && r is Ok && r->Ok_0@ == inserted_article(old(self)@, record@, now),
            !accepts_new(old(self)@, record@) ==> final(self)@ == old(self)@ && r
                == Err::<Article, StoreError>(StoreError::ConstraintViolation),
    {
        if self.next_id == u128::MAX || !same_text(
            record.slug.as_str(),
            slugify(record.title.as_str()).as_str(),
        ) {
            return Err(StoreError::ConstraintViolation);
        }
        let article = Article {
            id: self.next_id,
            author_id: record.author_id,
            title: record.title.clone(),
            slug: record.slug.clone(),
            description: record.description.clone(),
            body: record.body.clone(),
            created_at: now,
            updated_at: now,
        };
        self.articles.push(article.clone());
        self.next_id = self.next_id + 1;
        proof {
            assert(articles_wf(old(self)@));
            assert(self@.articles =~= old(self)@.articles.push(article@));
            assert(self@.tags == old(self)@.tags);
            assert(self@.links == old(self)@.links);
            assert forall|k: int| 0 <= k < self@.links.len() implies has_article(
                self@.articles,
                (#[trigger] self@.links[k]).article_id,
            ) by {
                lemma_has_article_push(old(self)@.articles, article@, self@.links[k].article_id);
            }
        }
        Ok(article)
    }

    /// Applies `changes` to the article with this id, at time `now`.
    ///
    /// Fails with `NotFound` where no article has the id, and with
    /// `ConstraintViolation` where the changes are not consistent.
    pub fn update(&mut self, id: u128, changes: &UpdateArticle, now: i64) -> (r: Result<
        Article,
        StoreError,
    >)
        requires
            old(self).wf(),
        ensures
            final(self).wf(),
            !has_article(old(self)@.articles, id) ==> final(self)@ == old(self)@ && r
                == Err::<Article, StoreError>(StoreError::NotFound),
            has_article(old(self)@.articles, id) && !consistent_update(changes@) ==> final(self)@
                == old(self)@ && r == Err::<Article, StoreError>(StoreError::ConstraintViolation),
            has_article(old(self)@.articles, id) && consistent_update(changes@) ==> final(self)@
                == after_update(old(self)@, id, changes@, now) && r is Ok && r->Ok_0@
                == updated_article(
                old(self)@.articles[article_position(old(self)@.articles, id)],
                changes@,
                now,
            ),
    {
        proof {
            assert(articles_wf(old(self)@));
        }
        let i = match self.position(id) {
            Some(i) => i,
            None => {
                return Err(StoreError::NotFound);
            },
        };
        let consistent = match (&changes.title, &changes.slug) {
            (Some(title), Some(slug)) => same_text(
                slug.as_str(),
                slugify(title.as_str()).as_str(),
            ),
            (None, None) => true,
            _ => false,
        };
        if !consistent {
            return Err(StoreError::ConstraintViolation);
        }
        let stored = &self.articles[i];
        let article = Article {
            id: stored.id,
            author_id: stored.author_id,
            title: replace_text(&stored.title, &changes.title),
            slug: replace_text(&stored.slug, &changes.slug),
            description: replace_text(&stored.description, &changes.description),
            body: replace_text(&stored.body, &changes.body),
            created_at: stored.created_at,
            updated_at: now,
        };
        self.articles[i] = article.clone();
        proof {
            let before = old(self)@;
            assert(i as int == article_position(before.articles, id));
            assert(self@.articles =~= before.articles.update(i as int, article@));
            assert(self@.tags == before.tags);
            assert(self@.links == before.links);
            assert forall|k: int| 0 <= k < self@.links.len() implies has_article(
                self@.articles,
                (#[trigger] self@.links[k]).article_id,
            ) by {
                let j = article_position(before.articles, before.links[k].article_id);
                assert(self@.articles[j].id == before.links[k].article_id);
            }
        }
        Ok(article)
    }

    /// Deletes the article with this id, and with it every link to it.
    /// Says whether there was such an article.
    pub fn delete(&mut self, id: u128) -> (deleted: bool)
        requires
            old(self).wf(),
        ensures
            final(self).wf(),
            deleted == has_article(old(self)@.articles, id),
            final(self)@ == after_delete(old(self)@, id),
    {
        proof {
            assert(articles_wf(old(self)@));
        }
        let found = self.position(id);
        let mut kept: Vec<ArticleTag> = Vec::new();
        let mut i: usize = 0;
        while i < self.links.len()
            invariant
                i <= self.links.len(),
                *self == *old(self),
                articles_wf(self@),
                kept@ == self.links@.take(i as int).filter(not_linked_to(id)),
            decreases self.links.len() - i,
        {
            let link = self.links[i];
            proof {
                assert(self.links@.take(i + 1) =~= self.links@.take(i as int).push(link));
                self.links@.take(i as int).lemma_filter_push(link, not_linked_to(id));
            }
            if link.article_id != id {
                kept.push(link);
            }
            i += 1;
        }
        proof {
            assert(self.links@.take(i as int) =~= self.links@);
        }
        self.links = kept;
        let deleted = match found {
            Some(at) => {
                self.articles.remove(at);
                proof {
                    let before = old(self)@;
                    assert forall|k: int| 0 <= k < before.articles.len() && k != at implies (
                    #[trigger] before.articles[k]).id != id by {
                        if k < at {
                            assert(before.articles[k].id < before.articles[at as int].id);
                        } else {
                            assert(before.articles[at as int].id < before.articles[k].id);
                        }
                    }
                    lemma_remove_is_filter(before.articles, at as int, id);
                    assert(self@.articles =~= before.articles.remove(at as int));
                }
                true
            },
            None => {
                proof {
                    lemma_filter_all(old(self)@.articles, other_than(id));
                }
                false
            },
        };
        proof {
            assert(self@.tags == old(self)@.tags);
            assert(self@ == after_delete(old(self)@, id));
            lemma_delete_cascades(old(self)@, id);
        }
        deleted
    }

    /// The position of the tag with this name.
    fn tag_position(&self, name: &str) -> (r: Option<usize>)
        ensures
            match r {
                Some(i) => i < self@.tags.len() && self@.tags[i as int].name == name@,
                None => !tag_known(self@.tags, name@),
            },
    {
        let mut i: usize = 0;
        while i < self.tags.len()
            invariant
                i <= self.tags.len(),
                forall|k: int| 0 <= k < i ==> (#[trigger] self@.tags[k]).name != name@,
            decreases self.tags.len() - i,
        {
            if same_text(self.tags[i].name.as_str(), name) {
                return Some(i);
            }
            i += 1;
        }
        None
    }

    /// Whether this link is in the association table.
    fn has_link(&self, link: ArticleTag) -> (r: bool)
        ensures
            r == self@.links.contains(link),
    {
        let mut i: usize = 0;
        while i < self.links.len()
            invariant
                i <= self.links.len(),
                forall|k: int| 0 <= k < i ==> self@.links[k] != link,
            decreases self.links.len() - i,
        {
            let l = self.links[i];
            if l.article_id == link.article_id && l.tag_id == link.tag_id {
                assert(self@.links[i as int] == link);
                return true;
            }
            i += 1;
        }
        false
    }

    /// Puts back an article that was stored before, as it is. A row that
    /// the table does not accept is refused with `ConstraintViolation`.
    pub fn restore_article(&mut self, row: Article) -> (r: Result<(), StoreError>)
        requires
            old(self).wf(),
        ensures
            final(self).wf(),
            r is Ok == accepts_stored_article(old(self)@, row@),
            r is Ok ==> final(self)@ == after_restoring_article(old(self)@, row@),
            r is Err ==> final(self)@ == old(self)@ && r->Err_0 == StoreError::ConstraintViolation,
    {
        proof {
            assert(articles_wf(old(self)@));
        }
        if row.id < self.next_id || row.id == u128::MAX || !same_text(
            row.slug.as_str(),
            slugify(row.title.as_str()).as_str(),
        ) {
            return Err(StoreError::ConstraintViolation);
        }
        self.next_id = row.id + 1;
        let ghost view = row@;
        self.articles.push(row);
        proof {
            assert(self@.articles =~= old(self)@.articles.push(view));
            assert(self@.tags == old(self)@.tags);
            assert(self@.links == old(self)@.links);
            assert forall|k: int| 0 <= k < self@.links.len() implies has_article(
                self@.articles,
                (#[trigger] self@.links[k]).article_id,
            ) by {
                assert(self@.links[k] == old(self)@.links[k]);
                lemma_has_article_push(old(self)@.articles, view, self@.links[k].article_id);
            }
        }
        Ok(())
    }

    /// Puts back a tag that was stored before, as it is. A row that the
    /// table does not accept is refused with `ConstraintViolation`.
    pub fn restore_tag(&mut self, row: Tag) -> (r: Result<(), StoreError>)
        requires
            old(self).wf(),
        ensures
            final(self).wf(),
            r is Ok == accepts_stored_tag(old(self)@, row@),
            r is Ok ==> final(self)@ == (ArticleTableView {
                tags: old(self)@.tags.push(row@),
                ..old(self)@
            }),
            r is Err ==> final(self)@ == old(self)@ && r->Err_0 == StoreError::ConstraintViolation,
    {
        proof {
            assert(articles_wf(old(self)@));
        }
        if row.id != self.tags.len() as u128 || self.tag_position(row.name.as_str()).is_some() {
            return Err(StoreError::ConstraintViolation);
        }
        let ghost view = row@;
        self.tags.push(row);
        proof {
            assert(self@.tags =~= old(self)@.tags.push(view));
            assert(self@.links == old(self)@.links);
            assert(self@.articles == old(self)@.articles);
        }
        Ok(())
    }

    /// Puts back a link that was stored before. A link that the table does
    /// not accept is refused with `ConstraintViolation`.
    pub fn restore_link(&mut self, link: ArticleTag) -> (r: Result<(), StoreError>)
        requires
            old(self).wf(),
        ensures
            final(self).wf(),
            r is Ok == accepts_stored_link(old(self)@, link),
            r is Ok ==> final(self)@ == (ArticleTableView {
                links: old(self)@.links.push(link),
                ..old(self)@
            }),
            r is Err ==> final(self)@ == old(self)@ && r->Err_0 == StoreError::ConstraintViolation,
    {
        proof {
            assert(articles_wf(old(self)@));
        }
        if self.position(link.article_id).is_none() || link.tag_id >= self.tags.len() as u128
            || self.has_link(link) {
            return Err(StoreError::ConstraintViolation);
        }
        self.links.push(link);
        proof {
            assert(self@.links =~= old(self)@.links.push(link));
            assert(self@.articles == old(self)@.articles);
            assert(self@.tags == old(self)@.tags);
            assert forall|k: int| 0 <= k < self@.links.len() implies has_article(
                self@.articles,
                (#[trigger] self@.links[k]).article_id,
            ) && self@.links[k].tag_id < self@.tags.len() by {
                if k < old(self)@.links.len() {
                    assert(self@.links[k] == old(self)@.links[k]);
                }
            }
        }
        Ok(())
    }

    /// The tag named `name`: the one of that name, or, where there is none,
    /// a new one created at time `now` under the next id.
    fn create_tag(&mut self, name: &str, now: i64) -> (tag: Tag)
        requires
            old(self).wf(),
        ensures
            final(self).wf(),
            final(self)@ == after_naming(old(self)@, name@, now),
            tag@ == resolved_tag(old(self)@.tags, name@, now),
    {
        proof {
            assert(articles_wf(old(self)@));
        }
        match self.tag_position(name) {
            Some(i) => {
                assert(i as int == choose|k: int|
                    0 <= k < self@.tags.len() && (#[trigger] self@.tags[k]).name == name@);
                self.tags[i].clone()
            },
            None => {
                let tag = Tag {
                    id: self.tags.len() as u128,
                    name: name.to_owned(),
                    created_at: now,
                    updated_at: now,
                };
                self.tags.push(tag.clone());
                proof {
                    assert(self@.tags =~= old(self)@.tags.push(tag@));
                    assert(self@.links == old(self)@.links);
                    assert(self@.articles == old(self)@.articles);
                }
                tag
            },
        }
    }

    /// Tags the article with this id `name`, at time `now`, and returns the
    /// tag: one of that name is created unless it exists, and linked to the
    /// article unless it is.
    ///
    /// Fails with `ConstraintViolation` where no article has the id.
    pub fn tag_article(&mut self, article_id: u128, name: &str, now: i64) -> (r: Result<
        Tag,
        StoreError,
    >)
        requires
            old(self).wf(),
        ensures
            final(self).wf(),
            !has_article(old(self)@.articles, article_id) ==> final(self)@ == old(self)@ && r
                == Err::<Tag, StoreError>(StoreError::ConstraintViolation),
            has_article(old(self)@.articles, article_id) ==> final(self)@ == after_tagging(
                old(self)@,
                article_id,
                name@,
                now,
            ) && r is Ok && r->Ok_0@ == resolved_tag(old(self)@.tags, name@, now),
    {
        proof {
            assert(articles_wf(old(self)@));
        }
        if self.position(article_id).is_none() {
            return Err(StoreError::ConstraintViolation);
        }
        let tag = self.create_tag(name, now);
        let ghost named = self@;
        proof {
            assert(articles_wf(named));
            assert(tag.id < named.tags.len());
        }
        let link = ArticleTag { article_id, tag_id: tag.id };
        if !self.has_link(link) {
            self.links.push(link);
            proof {
                assert(self@.links =~= named.links.push(link));
                assert(self@.articles == named.articles);
                assert(self@.tags == named.tags);
                assert forall|k: int| 0 <= k < self@.links.len() implies has_article(
                    self@.articles,
                    (#[trigger] self@.links[k]).article_id,
                ) && self@.links[k].tag_id < self@.tags.len() by {
                    if k < named.links.len() {
                        assert(self@.links[k] == named.links[k]);
                    }
                }
            }
        }
        Ok(tag)
    }

    /// The tags of the article with this id, in the order in which they
    /// were linked.
    pub fn tags_of(&self, article_id: u128) -> (r: Vec<Tag>)
        requires
            self.wf(),
        ensures
            tag_views(r@) == tags_of(self@, article_id),
    {
        let n = self.tags.len();
        let mut r: Vec<Tag> = Vec::new();
        let mut i: usize = 0;
        while i < self.links.len()
            invariant
                i <= self.links.len(),
                n == self.tags.len(),
                articles_wf(self@),
                tag_views(r@) == self.links@.take(i as int).filter(
                    linked_to(article_id),
                ).map_values(tag_of_link(self@.tags)),
            decreases self.links.len() - i,
        {
            let link = self.links[i];
            proof {
                assert(self.links@.take(i + 1) =~= self.links@.take(i as int).push(link));
                self.links@.take(i as int).lemma_filter_push(link, linked_to(article_id));
                assert(self@.links[i as int].tag_id < self@.tags.len());
            }
            if link.article_id == article_id {
                let ghost before = r@;
                let at = link.tag_id as usize;
                r.push(self.tags[at].clone());
                proof {
                    assert(self@.tags[at as int] == self.tags@[at as int]@);
                    assert(tag_views(r@) =~= tag_views(before).push(self@.tags[at as int]));
                    lemma_map_push(
                        self.links@.take(i as int).filter(linked_to(article_id)),
                        link,
                        tag_of_link(self@.tags),
                    );
                }
            }
            i += 1;
        }
        proof {
            assert(self.links@.take(i as int) =~= self.links@);
        }
        r
    }

    /// The tags that belong to the articles with these ids, each with its
    /// article's id, in the order in which they were linked.
    pub fn tags_belonging_to(&self, ids: &Vec<u128>) -> (r: Vec<TagOfArticle>)
        requires
            self.wf(),
        ensures
            child_views(r@) == tags_belonging_to(self@, ids@),
    {
        let n = self.tags.len();
        let mut r: Vec<TagOfArticle> = Vec::new();
        let mut i: usize = 0;
        while i < self.links.len()
            invariant
                i <= self.links.len(),
                n == self.tags.len(),
                articles_wf(self@),
                child_views(r@) == self.links@.take(i as int).filter(
                    linked_to_any(ids@),
                ).map_values(child_of_link(self@.tags)),
            decreases self.links.len() - i,
        {
            let link = self.links[i];
            proof {
                assert(self.links@.take(i + 1) =~= self.links@.take(i as int).push(link));
                self.links@.take(i as int).lemma_filter_push(link, linked_to_any(ids@));
                assert(self@.links[i as int].tag_id < self@.tags.len());
            }
            if contains_id(ids, link.article_id) {
                let ghost before = r@;
                let at = link.tag_id as usize;
                r.push(TagOfArticle { article_id: link.article_id, tag: self.tags[at].clone() });
                proof {
                    let child = child_of_link(self@.tags)(link);
                    assert(self@.tags[at as int] == self.tags@[at as int]@);
                    assert(child_views(r@) =~= child_views(before).push(child));
                    lemma_map_push(
                        self.links@.take(i as int).filter(linked_to_any(ids@)),
                        link,
                        child_of_link(self@.tags),
                    );
                }
            }
            i += 1;
        }
        proof {
            assert(self.links@.take(i as int) =~= self.links@);
        }
        r
    }
}

/// An article that a table has, it still has after another is appended.
proof fn lemma_has_article_push(articles: Seq<ArticleView>, a: ArticleView, id: u128)
    requires
        has_article(articles, id),
    ensures
        has_article(articles.push(a), id),
{
    let i = article_position(articles, id);
    assert(articles.push(a)[i].id == id);
}

/// To remove the one article with an id is to keep all the others.
proof fn lemma_remove_is_filter(s: Seq<ArticleView>, idx: int, id: u128)
    requires
        0 <= idx < s.len(),
        s[idx].id == id,
        forall|i: int| 0 <= i < s.len() && i != idx ==> (#[trigger] s[i]).id != id,
    ensures
        s.remove(idx) == s.filter(other_than(id)),
    decreases s.len(),
{
    reveal(Seq::filter);
    if idx == s.len() - 1 {
        lemma_filter_all(s.drop_last(), other_than(id));
        assert(s.remove(idx) =~= s.drop_last());
    } else {
        lemma_remove_is_filter(s.drop_last(), idx, id);
        assert(s.drop_last().remove(idx).push(s.last()) =~= s.remove(idx));
    }
}

/// Tagging adds and changes no article.
pub proof fn lemma_tagging_keeps_articles(
    t: ArticleTableView,
    article_id: u128,
    names: Seq<Seq<char>>,
    now: i64,
)
    ensures
        after_tagging_all(t, article_id, names, now).articles == t.articles,
        after_tagging_all(t, article_id, names, now).next_id == t.next_id,
    decreases names.len(),
{
    if names.len() > 0 {
        lemma_tagging_keeps_articles(t, article_id, names.drop_last(), now);
    }
}

/// Deleting an article leaves a table that satisfies its invariant, in
/// which no article has the id and no link names it: no link is orphaned.
pub proof fn lemma_delete_cascades(t: ArticleTableView, id: u128)
    requires
        articles_wf(t),
    ensures
        articles_wf(after_delete(t, id)),
        !has_article(after_delete(t, id).articles, id),
        forall|k: int|
            0 <= k < after_delete(t, id).links.len() ==> (#[trigger] after_delete(
                t,
                id,
            ).links[k]).article_id != id,
        tags_of(after_delete(t, id), id) == Seq::<TagView>::empty(),
{
    let after = after_delete(t, id);
    assert forall|k: int| 0 <= k < after.links.len() implies (#[trigger] after.links[k]).article_id
        != id && t.links.contains(after.links[k]) by {
        lemma_filter_kept(t.links, not_linked_to(id), k);
    }
    lemma_filter_distinct(t.links, not_linked_to(id));
    if has_article(t.articles, id) {
        let at = article_position(t.articles, id);
        assert forall|k: int| 0 <= k < t.articles.len() && k != at implies (
        #[trigger] t.articles[k]).id != id by {
            if k < at {
                assert(t.articles[k].id < t.articles[at].id);
            } else {
                assert(t.articles[at].id < t.articles[k].id);
            }
        }
        lemma_remove_is_filter(t.articles, at, id);
        assert forall|k: int| 0 <= k < after.links.len() implies has_article(
            after.articles,
            (#[trigger] after.links[k]).article_id,
        ) && after.links[k].tag_id < after.tags.len() by {
            let j = choose|j: int| 0 <= j < t.links.len() && t.links[j] == after.links[k];
            let m = article_position(t.articles, t.links[j].article_id);
            if m < at {
                assert(after.articles[m].id == t.links[j].article_id);
            } else {
                assert(after.articles[m - 1].id == t.links[j].article_id);
            }
        }
    } else {
        lemma_filter_all(t.articles, other_than(id));
        assert forall|k: int| 0 <= k < after.links.len() implies has_article(
            after.articles,
            (#[trigger] after.links[k]).article_id,
        ) && after.links[k].tag_id < after.tags.len() by {
            let j = choose|j: int| 0 <= j < t.links.len() && t.links[j] == after.links[k];
        }
    }
    assert forall|k: int| 0 <= k < after.links.len() implies !linked_to(id)(
        #[trigger] after.links[k],
    ) by {}
    lemma_filter_none(after.links, linked_to(id));
    assert(tags_of(after, id) =~= Seq::<TagView>::empty());
}

/// A page that begins at the first row and has room for every row holds
/// the whole table, in its order.
pub proof fn lemma_small_table_on_one_page<T>(rows: Seq<T>, limit: usize)
    requires
        rows.len() <= limit,
    ensures
        page_of(rows, 0, limit) == rows,
{
    assert(page_of(rows, 0, limit) =~= rows);
}

} // verus!
