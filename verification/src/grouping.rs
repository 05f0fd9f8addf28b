//! Tags grouped by article: the rows of the join of links and tags, and
//! the grouping that hands each article of a page its own tags.

use crate::article::{
    linked_to, tag_of_link, tag_views, tags_of, ArticleTableView, ArticleTag, Tag, TagView,
};
use crate::seqs::lemma_map_push;
use vstd::prelude::*;

verus! {

/// A tag together with the article that carries it: a row of the join of
/// links and tags.
#[derive(Debug)]
pub struct TagOfArticle {
    pub article_id: u128,
    pub tag: Tag,
}

/// What a [`TagOfArticle`] holds, as mathematical values.
pub struct TagOfArticleView {
    pub article_id: u128,
    pub tag: TagView,
}

impl View for TagOfArticle {
    type V = TagOfArticleView;

    open spec fn view(&self) -> TagOfArticleView {
        TagOfArticleView { article_id: self.article_id, tag: self.tag@ }
    }
}

/// The views of a list of joined rows.
pub open spec fn child_views(rows: Seq<TagOfArticle>) -> Seq<TagOfArticleView> {
    rows.map_values(|c: TagOfArticle| c@)
}

/// The views of a list of lists of tags.
pub open spec fn group_views(groups: Seq<Vec<Tag>>) -> Seq<Seq<TagView>> {
    groups.map_values(|g: Vec<Tag>| tag_views(g@))
}

/// The test that keeps the links of the articles with these ids.
pub open spec fn linked_to_any(ids: Seq<u128>) -> spec_fn(ArticleTag) -> bool {
    |l: ArticleTag| ids.contains(l.article_id)
}

/// The function from a link to the tag it names, with the article's id.
pub open spec fn child_of_link(tags: Seq<TagView>) -> spec_fn(ArticleTag) -> TagOfArticleView {
    |l: ArticleTag| TagOfArticleView { article_id: l.article_id, tag: tags[l.tag_id as int] }
}

/// The tags that belong to the articles with these ids, each with its
/// article's id, in the order in which they were linked.
pub open spec fn tags_belonging_to(t: ArticleTableView, ids: Seq<u128>) -> Seq<TagOfArticleView> {
    t.links.filter(linked_to_any(ids)).map_values(child_of_link(t.tags))
}

/// The test that keeps the joined rows of this article.
pub open spec fn child_of(id: u128) -> spec_fn(TagOfArticleView) -> bool {
    |c: TagOfArticleView| c.article_id == id
}

/// The function from a joined row to its tag.
pub open spec fn tag_of_child() -> spec_fn(TagOfArticleView) -> TagView {
    |c: TagOfArticleView| c.tag
}

/// The tags among `children` that belong to the article `id`, in order.
pub open spec fn group_of(children: Seq<TagOfArticleView>, id: u128) -> Seq<TagView> {
    children.filter(child_of(id)).map_values(tag_of_child())
}

/// Whether the id at place `i` of `ids` occurs again further on.
pub open spec fn occurs_later(ids: Seq<u128>, i: int) -> bool {
    exists|j: int| i < j < ids.len() && ids[j] == ids[i]
}

/// `children` grouped by article: one list for each of `ids`, in their
/// order, holding the tags of that article in the order of `children`.
/// Where an id occurs more than once, the last of its places gets its
/// tags and the others get none.
pub open spec fn grouped_by(children: Seq<TagOfArticleView>, ids: Seq<u128>) -> Seq<Seq<TagView>> {
    Seq::new(
        ids.len(),
        |i: int|
            if occurs_later(ids, i) {
                Seq::empty()
            } else {
                group_of(children, ids[i])
            },
    )
}

/// Whether `id` is among `ids`.
pub fn contains_id(ids: &Vec<u128>, id: u128) -> (r: bool)
    ensures
        r == ids@.contains(id),
{
    let mut i: usize = 0;
    while i < ids.len()
        invariant
            i <= ids.len(),
            forall|k: int| 0 <= k < i ==> ids@[k] != id,
        decreases ids.len() - i,
    {
        if ids[i] == id {
            return true;
        }
        i += 1;
    }
    false
}

/// Whether the id at place `i` of `ids` occurs again further on.
fn id_occurs_later(ids: &Vec<u128>, i: usize) -> (r: bool)
    requires
        i < ids.len(),
    ensures
        r == occurs_later(ids@, i as int),
{
    let mut j: usize = i + 1;
    while j < ids.len()
        invariant
            i < j <= ids.len(),
            forall|k: int| i < k < j ==> ids@[k] != ids@[i as int],
        decreases ids.len() - j,
    {
        if ids[j] == ids[i] {
            return true;
        }
        j += 1;
    }
    false
}

/// The tags among `children` that belong to the article `id`, in order.
fn tags_of_article(children: &Vec<TagOfArticle>, id: u128) -> (group: Vec<Tag>)
    ensures
        tag_views(group@) == group_of(child_views(children@), id),
{
    let mut group: Vec<Tag> = Vec::new();
    let mut j: usize = 0;
    while j < children.len()
        invariant
            j <= children.len(),
            tag_views(group@) == group_of(child_views(children@).take(j as int), id),
        decreases children.len() - j,
    {
        proof {
            let all = child_views(children@);
            assert(all.take(j + 1) =~= all.take(j as int).push(children@[j as int]@));
            all.take(j as int).lemma_filter_push(children@[j as int]@, child_of(id));
        }
        if children[j].article_id == id {
            let ghost before = group@;
            group.push(children[j].tag.clone());
            proof {
                let all = child_views(children@);
                assert(tag_views(group@) =~= tag_views(before).push(children@[j as int].tag@));
                lemma_map_push(
                    all.take(j as int).filter(child_of(id)),
                    children@[j as int]@,
                    tag_of_child(),
                );
            }
        }
        j += 1;
    }
    proof {
        assert(child_views(children@).take(j as int) =~= child_views(children@));
    }
    group
}

/// Groups `children` by article: one list for each of `ids`, in their
/// order, holding the tags of that article in the order of `children`.
/// Where an id occurs more than once, the last of its places gets its
/// tags and the others get none.
pub fn group_by_article(children: &Vec<TagOfArticle>, ids: &Vec<u128>) -> (groups: Vec<Vec<Tag>>)
    ensures
        groups@.len() == ids@.len(),
        group_views(groups@) == grouped_by(child_views(children@), ids@),
{
    let mut groups: Vec<Vec<Tag>> = Vec::new();
    let mut i: usize = 0;
    while i < ids.len()
        invariant
            i <= ids.len(),
            groups@.len() == i,
            forall|k: int|
                0 <= k < i ==> tag_views((#[trigger] groups@[k])@) == grouped_by(
                    child_views(children@),
                    ids@,
                )[k],
        decreases ids.len() - i,
    {
        let group = if id_occurs_later(ids, i) {
            let none: Vec<Tag> = Vec::new();
            assert(tag_views(none@) =~= Seq::<TagView>::empty());
            none
        } else {
            tags_of_article(children, ids[i])
        };
        groups.push(group);
        i += 1;
    }
    assert(group_views(groups@) =~= grouped_by(child_views(children@), ids@));
    groups
}

/// Among the tags that belong to a set of articles, those of one of them
/// are all the tags of that article.
pub proof fn lemma_group_is_tags_of(t: ArticleTableView, ids: Seq<u128>, id: u128)
    requires
        ids.contains(id),
    ensures
        group_of(tags_belonging_to(t, ids), id) == tags_of(t, id),
{
    lemma_group_of_links(t.links, t.tags, ids, id);
}

/// The same, over any list of links.
proof fn lemma_group_of_links(links: Seq<ArticleTag>, tags: Seq<TagView>, ids: Seq<u128>, id: u128)
    requires
        ids.contains(id),
    ensures
        links.filter(linked_to_any(ids)).map_values(child_of_link(tags)).filter(
            child_of(id),
        ).map_values(tag_of_child()) == links.filter(linked_to(id)).map_values(tag_of_link(tags)),
    decreases links.len(),
{
    reveal(Seq::filter);
    if links.len() > 0 {
        let before = links.drop_last();
        let l = links.last();
        lemma_group_of_links(before, tags, ids, id);
        assert(before.push(l) =~= links);
        before.lemma_filter_push(l, linked_to_any(ids));
        before.lemma_filter_push(l, linked_to(id));
        let any = before.filter(linked_to_any(ids));
        let children = any.map_values(child_of_link(tags));
        if ids.contains(l.article_id) {
            lemma_map_push(any, l, child_of_link(tags));
            children.lemma_filter_push(child_of_link(tags)(l), child_of(id));
            if l.article_id == id {
                lemma_map_push(children.filter(child_of(id)), child_of_link(tags)(l), tag_of_child());
                lemma_map_push(before.filter(linked_to(id)), l, tag_of_link(tags));
            }
        }
    } else {
        assert(links.filter(linked_to_any(ids)).map_values(child_of_link(tags)).filter(
            child_of(id),
        ).map_values(tag_of_child()) =~= links.filter(linked_to(id)).map_values(tag_of_link(tags)));
    }
}

} // verus!
