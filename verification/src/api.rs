//! The article operations that the request handlers call, and the shapes
//! of what they take and answer.

use crate::article::{
    accepts_new, accepts_stored_article, after_delete, after_insert, after_restoring_article,
    after_tagging_all, after_update, article_position,
    article_views, articles_wf, has_article, inserted_article, lemma_small_table_on_one_page,
    lemma_tagging_keeps_articles, other_than, page_of, tag_views, tags_of, updated_article,
    Article, ArticleTableView, ArticleView, NewArticle, NewArticleView, Tag, TagView,
    UpdateArticle, UpdateArticleView,
};
use crate::error::StoreError;
use crate::follow::{follows, Follow};
use crate::grouping::{
    child_views, group_by_article, group_of, group_views, grouped_by, lemma_group_is_tags_of,
    occurs_later,
};
use crate::seqs::lemma_filter_kept;
use crate::slug::slug_of;
use crate::store::Store;
use crate::text::{clone_opt, opt_text};
use crate::user::{profile_of, Profile, ProfileView, User, UserView};
use vstd::prelude::*;

verus! {

/// The number of articles that [`index`] lists.
pub const PAGE_LIMIT: usize = 20;

/// The article of a [`CreateArticleRequest`].
#[allow(non_snake_case)]
#[derive(Debug)]
pub struct CreateArticle {
    pub title: String,
    pub description: String,
    pub body: String,
    pub tagList: Vec<String>,
}

/// What a [`CreateArticle`] holds, as mathematical values.
pub struct CreateArticleView {
    pub title: Seq<char>,
    pub description: Seq<char>,
    pub body: Seq<char>,
    pub tag_list: Seq<Seq<char>>,
}

impl View for CreateArticle {
    type V = CreateArticleView;

    open spec fn view(&self) -> CreateArticleView {
        CreateArticleView {
            title: self.title@,
            description: self.description@,
            body: self.body@,
            tag_list: text_views(self.tagList@),
        }
    }
}

/// The body of a request to create an article.
#[derive(Debug)]
pub struct CreateArticleRequest {
    pub article: CreateArticle,
}

/// The article of an [`UpdateArticleRequest`].
#[derive(Debug)]
pub struct UpdateArticleFields {
    pub title: Option<String>,
    pub description: Option<String>,
    pub body: Option<String>,
}

/// What an [`UpdateArticleFields`] holds, as mathematical values.
pub struct UpdateArticleFieldsView {
    pub title: Option<Seq<char>>,
    pub description: Option<Seq<char>>,
    pub body: Option<Seq<char>>,
}

impl View for UpdateArticleFields {
    type V = UpdateArticleFieldsView;

    open spec fn view(&self) -> UpdateArticleFieldsView {
        UpdateArticleFieldsView {
            title: opt_text(self.title),
            description: opt_text(self.description),
            body: opt_text(self.body),
        }
    }
}

/// The body of a request to update an article.
#[derive(Debug)]
pub struct UpdateArticleRequest {
    pub article: UpdateArticleFields,
}

/// An article as a response shows it.
#[allow(non_snake_case)]
#[derive(Debug)]
pub struct ArticleContent {
    pub id: u128,
    pub slug: String,
    pub title: String,
    pub description: String,
    pub body: String,
    pub tagList: Vec<String>,
    pub createdAt: i64,
    pub updatedAt: i64,
    pub author: Profile,
}

/// What an [`ArticleContent`] holds, as mathematical values.
pub struct ArticleContentView {
    pub id: u128,
    pub slug: Seq<char>,
    pub title: Seq<char>,
    pub description: Seq<char>,
    pub body: Seq<char>,
    pub tag_list: Seq<Seq<char>>,
    pub created_at: i64,
    pub updated_at: i64,
    pub author: ProfileView,
}

/// The views of a list of texts.
pub open spec fn text_views(texts: Seq<String>) -> Seq<Seq<char>> {
    texts.map_values(|s: String| s@)
}

impl View for ArticleContent {
    type V = ArticleContentView;

    open spec fn view(&self) -> ArticleContentView {
        ArticleContentView {
            id: self.id,
            slug: self.slug@,
            title: self.title@,
            description: self.description@,
            body: self.body@,
            tag_list: text_views(self.tagList@),
            created_at: self.createdAt,
            updated_at: self.updatedAt,
            author: self.author@,
        }
    }
}

/// The views of a list of article contents.
pub open spec fn content_views(contents: Seq<ArticleContent>) -> Seq<ArticleContentView> {
    contents.map_values(|c: ArticleContent| c@)
}

/// The names of a list of tags.
pub open spec fn names_of(tags: Seq<TagView>) -> Seq<Seq<char>> {
    tags.map_values(|t: TagView| t.name)
}

/// How a response shows `article`, written by `author`, whom the viewer
/// follows or not, with `tags`.
pub open spec fn content_of(
    article: ArticleView,
    author: UserView,
    following: bool,
    tags: Seq<TagView>,
) -> ArticleContentView {
    ArticleContentView {
        id: article.id,
        slug: article.slug,
        title: article.title,
        description: article.description,
        body: article.body,
        tag_list: names_of(tags),
        created_at: article.created_at,
        updated_at: article.updated_at,
        author: profile_of(author, following),
    }
}

impl ArticleContent {
    /// How a response shows `article`, written by `author`, whom the
    /// viewer follows or not, with `tags`.
    pub fn from(article: &Article, author: &User, following: bool, tags: &Vec<Tag>) -> (c:
        ArticleContent)
        ensures
            c@ == content_of(article@, author@, following, tag_views(tags@)),
    {
        let mut names: Vec<String> = Vec::new();
        let mut i: usize = 0;
        while i < tags.len()
            invariant
                i <= tags.len(),
                names@.len() == i,
                forall|k: int| 0 <= k < i ==> (#[trigger] names@[k])@ == tags@[k].name@,
            decreases tags.len() - i,
        {
            names.push(tags[i].name.clone());
            i += 1;
        }
        assert(text_views(names@) =~= names_of(tag_views(tags@)));
        ArticleContent {
            id: article.id,
            slug: article.slug.clone(),
            title: article.title.clone(),
            description: article.description.clone(),
            body: article.body.clone(),
            tagList: names,
            createdAt: article.created_at,
            updatedAt: article.updated_at,
            author: Profile::of(author, following),
        }
    }
}

/// The answer that shows one article.
#[derive(Debug)]
pub struct SingleArticleResponse {
    pub article: ArticleContent,
}

impl SingleArticleResponse {
    /// The answer that shows `article`, written by `user`, whom the viewer
    /// follows or not, with the tags of `tag_list`.
    pub fn from(article: Article, user: User, following: bool, tag_list: Vec<Tag>) -> (r:
        SingleArticleResponse)
        ensures
            r.article@ == content_of(article@, user@, following, tag_views(tag_list@)),
    {
        SingleArticleResponse { article: ArticleContent::from(&article, &user, following, &tag_list) }
    }
}

/// The answer that shows a page of articles.
#[allow(non_snake_case)]
#[derive(Debug)]
pub struct MultipleArticlesResponse {
    pub articles: Vec<ArticleContent>,
    /// The number of articles in the table, not on the page.
    pub articlesCount: usize,
}

impl MultipleArticlesResponse {
    /// The answer that shows `articles`, of `articles_count` in all.
    pub fn from(articles: Vec<ArticleContent>, articles_count: usize) -> (r:
        MultipleArticlesResponse)
        ensures
            r.articles == articles,
            r.articlesCount == articles_count,
    {
        MultipleArticlesResponse { articles, articlesCount: articles_count }
    }
}

/// An article of a listing: the article, its author and its tags.
#[derive(Debug)]
pub struct ListedArticle {
    pub article: Article,
    pub author: User,
    pub tags: Vec<Tag>,
}

/// What a [`ListedArticle`] holds, as mathematical values.
pub struct ListedArticleView {
    pub article: ArticleView,
    pub author: UserView,
    pub tags: Seq<TagView>,
}

impl View for ListedArticle {
    type V = ListedArticleView;

    open spec fn view(&self) -> ListedArticleView {
        ListedArticleView {
            article: self.article@,
            author: self.author@,
            tags: tag_views(self.tags@),
        }
    }
}

/// The views of a listing.
pub open spec fn listed_views(items: Seq<ListedArticle>) -> Seq<ListedArticleView> {
    items.map_values(|l: ListedArticle| l@)
}

/// `article` as a listing shows it: with its author and its tags.
pub open spec fn listed(users: Seq<UserView>, t: ArticleTableView, article: ArticleView) -> ListedArticleView {
    ListedArticleView {
        article,
        author: users[article.author_id as int],
        tags: tags_of(t, article.id),
    }
}

/// The listing of the articles `offset ..< offset + limit`, oldest first.
pub open spec fn listing(users: Seq<UserView>, t: ArticleTableView, offset: usize, limit: usize) -> Seq<
    ListedArticleView,
> {
    page_of(t.articles, offset, limit).map_values(|a: ArticleView| listed(users, t, a))
}

/// How `viewer` sees a listed article: the author's profile says whether
/// the viewer follows them.
pub open spec fn shown(follow_rows: Seq<Follow>, viewer: u128, item: ListedArticleView) -> ArticleContentView {
    content_of(
        item.article,
        item.author,
        follows(follow_rows, viewer, item.author.id),
        item.tags,
    )
}

/// The function from a listed article to how `viewer` sees it.
pub open spec fn shown_to(follow_rows: Seq<Follow>, viewer: u128) -> spec_fn(
    ListedArticleView,
) -> ArticleContentView {
    |item: ListedArticleView| shown(follow_rows, viewer, item)
}

/// The article that a request to create one asks for, written by
/// `author_id`: its slug is the slug of its title.
pub open spec fn new_article_of(author_id: u128, form: CreateArticleView) -> NewArticleView {
    NewArticleView {
        author_id,
        title: form.title,
        slug: slug_of(form.title),
        description: form.description,
        body: form.body,
    }
}

/// The changes that a request to update an article asks for: with a new
/// title comes its slug.
pub open spec fn changes_of(form: UpdateArticleFieldsView) -> UpdateArticleView {
    UpdateArticleView {
        slug: match form.title {
            Some(title) => Some(slug_of(title)),
            None => None,
        },
        title: form.title,
        description: form.description,
        body: form.body,
    }
}

/// Whether the store takes `record` as a new article: its author is a
/// user, and the table of articles accepts it.
pub open spec fn store_accepts(users: Seq<UserView>, t: ArticleTableView, record: NewArticleView) -> bool {
    record.author_id < users.len() && accepts_new(t, record)
}

/// Lists the articles `offset ..< offset + limit`, oldest first, each
/// with its author and its tags, and counts the articles of the table.
pub fn list(conn: &Store, offset: usize, limit: usize) -> (r: (Vec<ListedArticle>, usize))
    requires
        conn.wf(),
    ensures
        listed_views(r.0@) == listing(conn.users@, conn.articles@, offset, limit),
        r.1 == conn.articles@.articles.len(),
{
    let page = conn.articles.page(offset, limit);
    let mut ids: Vec<u128> = Vec::new();
    let mut k: usize = 0;
    while k < page.len()
        invariant
            k <= page.len(),
            ids@.len() == k,
            forall|j: int| 0 <= j < k ==> ids@[j] == page@[j].id,
        decreases page.len() - k,
    {
        ids.push(page[k].id);
        k += 1;
    }
    let children = conn.articles.tags_belonging_to(&ids);
    let mut groups = group_by_article(&children, &ids);
    let ghost wanted = listing(conn.users@, conn.articles@, offset, limit);
    let ghost shown_page = page_of(conn.articles@.articles, offset, limit);
    proof {
        assert(article_views(page@).len() == page@.len());
        assert forall|j: int| 0 <= j < page@.len() implies tag_views(
            (#[trigger] groups@[j])@,
        ) == tags_of(conn.articles@, page@[j].id) by {
            assert(group_views(groups@)[j] == tag_views(groups@[j]@));
            assert(ids@[j] == page@[j].id);
            assert(!occurs_later(ids@, j)) by {
                lemma_page_in_order(conn.articles@, offset, limit);
                assert forall|k: int| j < k < ids@.len() implies ids@[k] != ids@[j] by {
                    assert(article_views(page@)[j] == page@[j]@);
                    assert(article_views(page@)[k] == page@[k]@);
                }
            }
            assert(grouped_by(child_views(children@), ids@)[j] == group_of(
                child_views(children@),
                ids@[j],
            ));
            lemma_group_is_tags_of(conn.articles@, ids@, ids@[j]);
        }
    }
    let mut items: Vec<ListedArticle> = Vec::new();
    let mut page = page;
    while page.len() > 0
        invariant
            conn.wf(),
            page@.len() == groups@.len(),
            items@.len() + page@.len() == wanted.len(),
            wanted == listing(conn.users@, conn.articles@, offset, limit),
            forall|j: int|
                0 <= j < items@.len() ==> (#[trigger] items@[j])@ == wanted[wanted.len() - 1 - j],
            forall|j: int|
                0 <= j < page@.len() ==> (#[trigger] page@[j])@ == shown_page[j],
            shown_page == page_of(conn.articles@.articles, offset, limit),
            forall|j: int|
                0 <= j < page@.len() ==> tag_views((#[trigger] groups@[j])@) == tags_of(
                    conn.articles@,
                    page@[j].id,
                ),
        decreases page.len(),
    {
        let ghost at = page@.len() - 1;
        let article = page.pop().unwrap();
        let tags = groups.pop().unwrap();
        proof {
            assert(article@ == shown_page[at]);
            assert(wanted[at] == listed(conn.users@, conn.articles@, shown_page[at]));
            lemma_page_rows(conn.articles@.articles, offset, limit, at);
        }
        let author = conn.users.get(article.author_id).unwrap();
        items.push(ListedArticle { article, author, tags });
    }
    let items = reversed(items);
    assert(listed_views(items@) =~= wanted);
    (items, conn.articles.count())
}

/// The first page of articles as `auth_user` sees it, with the number of
/// articles in the table.
pub fn index(conn: &Store, auth_user: &User) -> (r: MultipleArticlesResponse)
    requires
        conn.wf(),
    ensures
        content_views(r.articles@) == listing(
            conn.users@,
            conn.articles@,
            0,
            PAGE_LIMIT,
        ).map_values(shown_to(conn.follows@, auth_user.id)),
        r.articlesCount == conn.articles@.articles.len(),
{
    let (items, count) = list(conn, 0, PAGE_LIMIT);
    let mut contents: Vec<ArticleContent> = Vec::new();
    let mut i: usize = 0;
    while i < items.len()
        invariant
            i <= items.len(),
            contents@.len() == i,
            forall|k: int|
                0 <= k < i ==> (#[trigger] contents@[k])@ == shown(
                    conn.follows@,
                    auth_user.id,
                    items@[k]@,
                ),
        decreases items.len() - i,
    {
        let item = &items[i];
        let following = auth_user.is_following(conn, &item.author.id);
        contents.push(ArticleContent::from(&item.article, &item.author, following, &item.tags));
        i += 1;
    }
    assert(content_views(contents@) =~= listed_views(items@).map_values(
        shown_to(conn.follows@, auth_user.id),
    ));
    MultipleArticlesResponse::from(contents, count)
}

/// Inserts `record` as a new article at time `now` and tags it with each
/// of `tag_names` in turn; returns the article and its tags.
///
/// Fails with `ConstraintViolation`, changing nothing, where the store
/// does not accept the record.
pub fn create_with_tags(
    conn: &mut Store,
    record: &NewArticle,
    tag_names: &Vec<String>,
    now: i64,
) -> (r: Result<(Article, Vec<Tag>), StoreError>)
    requires
        old(conn).wf(),
    ensures
        final(conn).wf(),
        final(conn).users == old(conn).users,
        final(conn).follows == old(conn).follows,
        final(conn).secret == old(conn).secret,
        !store_accepts(old(conn).users@, old(conn).articles@, record@) ==> final(conn).articles@
            == old(conn).articles@ && r is Err && r->Err_0 == StoreError::ConstraintViolation,
        store_accepts(old(conn).users@, old(conn).articles@, record@) ==> {
            &&& r is Ok
            &&& final(conn).articles@ == after_tagging_all(
                after_insert(old(conn).articles@, record@, now),
                old(conn).articles@.next_id,
                text_views(tag_names@),
                now,
            )
            &&& r->Ok_0.0@ == inserted_article(old(conn).articles@, record@, now)
            &&& tag_views(r->Ok_0.1@) == tags_of(final(conn).articles@, old(conn).articles@.next_id)
        },
{
    if record.author_id >= conn.users.len() as u128 {
        return Err(StoreError::ConstraintViolation);
    }
    let article = match conn.articles.insert(record, now) {
        Ok(a) => a,
        Err(e) => {
            return Err(e);
        },
    };
    let ghost inserted = conn.articles@;
    let ghost names = text_views(tag_names@);
    proof {
        assert(inserted.articles[old(conn).articles@.articles.len() as int] == article@);
        assert forall|k: int| 0 <= k < inserted.articles.len() implies (
        #[trigger] inserted.articles[k]).author_id < conn.users@.len() by {
            if k < old(conn).articles@.articles.len() {
                assert(inserted.articles[k] == old(conn).articles@.articles[k]);
            }
        }
    }
    let mut i: usize = 0;
    while i < tag_names.len()
        invariant
            i <= tag_names.len(),
            conn.wf(),
            conn.users == old(conn).users,
            conn.follows == old(conn).follows,
            conn.secret == old(conn).secret,
            names == text_views(tag_names@),
            has_article(inserted.articles, article.id),
            conn.articles@ == after_tagging_all(inserted, article.id, names.take(i as int), now),
        decreases tag_names.len() - i,
    {
        proof {
            lemma_tagging_keeps_articles(inserted, article.id, names.take(i as int), now);
            assert(names.take(i + 1).drop_last() =~= names.take(i as int));
            assert(names.take(i + 1).last() == tag_names@[i as int]@);
        }
        let _ = conn.articles.tag_article(article.id, tag_names[i].as_str(), now);
        proof {
            lemma_tagging_keeps_articles(inserted, article.id, names.take(i + 1), now);
        }
        i += 1;
    }
    proof {
        assert(names.take(i as int) =~= names);
    }
    let tags = conn.articles.tags_of(article.id);
    Ok((article, tags))
}

/// Creates the article that `form` asks for, written by `auth_user`, as of
/// the time `now`, with the tags that the form lists, and shows it.
///
/// Fails with `ConstraintViolation`, changing nothing, where `auth_user`
/// is no user of the store or no id is left for the article.
pub fn create(conn: &mut Store, auth_user: &User, form: &CreateArticleRequest, now: i64) -> (r:
    Result<SingleArticleResponse, StoreError>)
    requires
        old(conn).wf(),
    ensures
        final(conn).wf(),
        final(conn).users == old(conn).users,
        final(conn).follows == old(conn).follows,
        final(conn).secret == old(conn).secret,
        r is Ok == (auth_user.id < old(conn).users@.len() && old(conn).articles@.next_id
            < u128::MAX),
        r is Err ==> final(conn).articles@ == old(conn).articles@ && r->Err_0
            == StoreError::ConstraintViolation,
        r is Ok ==> {
            &&& final(conn).articles@ == after_tagging_all(
                after_insert(
                    old(conn).articles@,
                    new_article_of(auth_user.id, form.article@),
                    now,
                ),
                old(conn).articles@.next_id,
                form.article@.tag_list,
                now,
            )
            &&& r->Ok_0.article@ == content_of(
                inserted_article(
                    old(conn).articles@,
                    new_article_of(auth_user.id, form.article@),
                    now,
                ),
                auth_user@,
                follows(old(conn).follows@, auth_user.id, auth_user.id),
                tags_of(final(conn).articles@, old(conn).articles@.next_id),
            )
        },
{
    let record = NewArticle {
        author_id: auth_user.id,
        title: form.article.title.clone(),
        slug: Article::convert_title_to_slug(form.article.title.as_str()),
        description: form.article.description.clone(),
        body: form.article.body.clone(),
    };
    match create_with_tags(conn, &record, &form.article.tagList, now) {
        Ok((article, tag_list)) => {
            let following = auth_user.is_following(conn, &auth_user.id);
            proof {
                assert(record@ == new_article_of(auth_user.id, form.article@));
            }
            Ok(SingleArticleResponse::from(article, auth_user.clone(), following, tag_list))
        },
        Err(e) => Err(e),
    }
}

/// Applies the changes that `form` asks for to the article with this id,
/// as of the time `now`, and shows it with `auth_user` as its author.
/// Whoever calls may update any article: ownership is not checked.
///
/// Fails with `NotFound`, changing nothing, where no article has the id.
pub fn update(
    conn: &mut Store,
    auth_user: &User,
    article_id: u128,
    form: &UpdateArticleRequest,
    now: i64,
) -> (r: Result<SingleArticleResponse, StoreError>)
    requires
        old(conn).wf(),
    ensures
        final(conn).wf(),
        final(conn).users == old(conn).users,
        final(conn).follows == old(conn).follows,
        final(conn).secret == old(conn).secret,
        r is Ok == has_article(old(conn).articles@.articles, article_id),
        r is Err ==> final(conn).articles@ == old(conn).articles@ && r->Err_0
            == StoreError::NotFound,
        r is Ok ==> {
            &&& final(conn).articles@ == after_update(
                old(conn).articles@,
                article_id,
                changes_of(form.article@),
                now,
            )
            &&& r->Ok_0.article@ == content_of(
                updated_article(
                    old(conn).articles@.articles[article_position(
                        old(conn).articles@.articles,
                        article_id,
                    )],
                    changes_of(form.article@),
                    now,
                ),
                auth_user@,
                follows(old(conn).follows@, auth_user.id, auth_user.id),
                tags_of(old(conn).articles@, article_id),
            )
        },
{
    let new_slug = match &form.article.title {
        Some(title) => Some(Article::convert_title_to_slug(title.as_str())),
        None => None,
    };
    let changes = UpdateArticle {
        slug: new_slug,
        title: clone_opt(&form.article.title),
        description: clone_opt(&form.article.description),
        body: clone_opt(&form.article.body),
    };
    let tag_list = conn.articles.tags_of(article_id);
    match conn.articles.update(article_id, &changes, now) {
        Ok(article) => {
            let following = auth_user.is_following(conn, &auth_user.id);
            proof {
                let before = old(conn).articles@;
                let i = article_position(before.articles, article_id);
                assert(changes@ == changes_of(form.article@));
                assert(conn.articles@ == after_update(before, article_id, changes@, now));
                assert forall|k: int| 0 <= k < conn.articles@.articles.len() implies (
                #[trigger] conn.articles@.articles[k]).author_id < conn.users@.len() by {
                    assert(before.articles[k].author_id < conn.users@.len());
                }
            }
            Ok(SingleArticleResponse::from(article, auth_user.clone(), following, tag_list))
        },
        Err(e) => Err(e),
    }
}

/// Deletes the article with this id, and with it every link to a tag.
/// Says whether there was such an article. Whoever calls may delete any
/// article: ownership is not checked.
pub fn delete(conn: &mut Store, article_id: u128) -> (deleted: bool)
    requires
        old(conn).wf(),
    ensures
        final(conn).wf(),
        final(conn).users == old(conn).users,
        final(conn).follows == old(conn).follows,
        final(conn).secret == old(conn).secret,
        deleted == has_article(old(conn).articles@.articles, article_id),
        final(conn).articles@ == after_delete(old(conn).articles@, article_id),
{
    let deleted = conn.articles.delete(article_id);
    proof {
        let before = old(conn).articles@.articles;
        let after = conn.articles@.articles;
        assert forall|k: int| 0 <= k < after.len() implies (#[trigger] after[k]).author_id
            < conn.users@.len() by {
            lemma_filter_kept(before, other_than(article_id), k);
            let j = choose|j: int| 0 <= j < before.len() && before[j] == after[k];
            assert(before[j].author_id < conn.users@.len());
        }
    }
    deleted
}

/// Puts back an article that was stored before, as it is.
///
/// Fails with `ConstraintViolation`, changing nothing, where its author is
/// no user of the store or the table of articles does not accept the row.
pub fn restore_article(conn: &mut Store, row: Article) -> (r: Result<(), StoreError>)
    requires
        old(conn).wf(),
    ensures
        final(conn).wf(),
        final(conn).users == old(conn).users,
        final(conn).follows == old(conn).follows,
        final(conn).secret == old(conn).secret,
        r is Ok == (row.author_id < old(conn).users@.len() && accepts_stored_article(
            old(conn).articles@,
            row@,
        )),
        r is Ok ==> final(conn).articles@ == after_restoring_article(old(conn).articles@, row@),
        r is Err ==> final(conn).articles@ == old(conn).articles@ && r->Err_0
            == StoreError::ConstraintViolation,
{
    if row.author_id >= conn.users.len() as u128 {
        return Err(StoreError::ConstraintViolation);
    }
    let r = conn.articles.restore_article(row);
    proof {
        if r is Ok {
            let before = old(conn).articles@.articles;
            let after = conn.articles@.articles;
            assert forall|k: int| 0 <= k < after.len() implies (#[trigger] after[k]).author_id
                < conn.users@.len() by {
                if k < before.len() {
                    assert(after[k] == before[k]);
                }
            }
        }
    }
    r
}

/// A listing with room for every article shows each article of the table,
/// in the table's order.
pub proof fn lemma_listing_shows_all(
    users: Seq<UserView>,
    t: ArticleTableView,
    limit: usize,
    i: int,
)
    requires
        t.articles.len() <= limit,
        0 <= i < t.articles.len(),
    ensures
        listing(users, t, 0, limit).len() == t.articles.len(),
        listing(users, t, 0, limit)[i].article == t.articles[i],
{
    lemma_small_table_on_one_page(t.articles, limit);
}

/// The articles of a page stand in the order of their ids.
proof fn lemma_page_in_order(t: ArticleTableView, offset: usize, limit: usize)
    requires
        articles_wf(t),
    ensures
        forall|j: int, k: int|
            0 <= j < k < page_of(t.articles, offset, limit).len() ==> (#[trigger] page_of(
                t.articles,
                offset,
                limit,
            )[j]).id < (#[trigger] page_of(t.articles, offset, limit)[k]).id,
{
    let lo = if offset <= t.articles.len() {
        offset as int
    } else {
        t.articles.len() as int
    };
    let page = page_of(t.articles, offset, limit);
    assert forall|j: int, k: int| 0 <= j < k < page.len() implies (#[trigger] page[j]).id < (
    #[trigger] page[k]).id by {
        assert(page[j] == t.articles[lo + j]);
        assert(page[k] == t.articles[lo + k]);
    }
}

/// Every row of a page is a row of the table.
proof fn lemma_page_rows<T>(rows: Seq<T>, offset: usize, limit: usize, j: int)
    requires
        0 <= j < page_of(rows, offset, limit).len(),
    ensures
        exists|i: int| 0 <= i < rows.len() && #[trigger] rows[i] == page_of(rows, offset, limit)[j],
{
    let lo = if offset <= rows.len() {
        offset as int
    } else {
        rows.len() as int
    };
    assert(rows[lo + j] == page_of(rows, offset, limit)[j]);
}

/// The list read from its end.
fn reversed<T>(v: Vec<T>) -> (r: Vec<T>)
    ensures
        r@ == v@.reverse(),
{
    let ghost all = v@;
    let mut v = v;
    let mut r: Vec<T> = Vec::new();
    while v.len() > 0
        invariant
            r@.len() + v@.len() == all.len(),
            forall|k: int| 0 <= k < v@.len() ==> v@[k] == all[k],
            forall|k: int| 0 <= k < r@.len() ==> r@[k] == all[all.len() - 1 - k],
        decreases v.len(),
    {
        let x = v.pop().unwrap();
        r.push(x);
    }
    assert(r@ =~= all.reverse());
    r
}

} // verus!
