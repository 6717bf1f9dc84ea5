//! The article rows and the operations of the content store and the query
//! composer.

use vstd::prelude::*;
use crate::article::resolvers::{ArticlesOptions, ArticlesPage, FeedOptions, NewArticle};
use crate::clock::now_micros;
use crate::db::{
    articles_wf, authors_exist, favorites_reference, has_article, has_slug, has_tag,
    has_tag_article, has_user, has_username, lemma_article_with_slug, lemma_user_named,
    tag_article_wf, tags_contain, tags_wf, QueryResult, Store,
};
use crate::edges::{keys_from, keys_not_into, not_into, Edge};
use crate::errors::DbError;
use crate::rows::{
    lemma_filter_members, lemma_filter_pairwise, lemma_filter_take_next, lemma_page_push, page_of,
};
use crate::user::db::{clone_opt, UserEntity};

verus! {

/// One article. Timestamps are microseconds since the Unix epoch, UTC.
#[derive(Debug)]
pub struct ArticleEntity {
    pub id: i32,
    pub slug: String,
    pub title: String,
    pub description: Option<String>,
    pub body: String,
    pub created_at: i64,
    pub updated_at: i64,
    pub author_id: i32,
}

/// One tag. Tags are global and shared by any number of articles.
#[derive(Debug)]
pub struct TagEntity {
    pub tag: String,
}

/// One association of a tag with an article.
#[derive(Debug)]
pub struct TagArticleEntity {
    pub tag: String,
    pub article_id: i32,
}

/// One favorite edge.
#[derive(Clone, Copy, Debug, PartialEq, Eq, Structural)]
pub struct UserFavoritesArticle {
    pub article_id: i32,
    pub user_id: i32,
    pub active: bool,
}

/// What article creation inserts.
#[derive(Debug)]
pub struct NewArticleDTO {
    pub title: String,
    pub description: Option<String>,
    pub body: String,
    pub slug: String,
    pub author_id: i32,
    pub created_at: i64,
    pub updated_at: i64,
}

impl Clone for ArticleEntity {
    fn clone(&self) -> (r: Self)
        ensures
            r == *self,
    {
        ArticleEntity {
            id: self.id,
            slug: self.slug.clone(),
            title: self.title.clone(),
            description: clone_opt(&self.description),
            body: self.body.clone(),
            created_at: self.created_at,
            updated_at: self.updated_at,
            author_id: self.author_id,
        }
    }
}


impl Clone for TagEntity {
    fn clone(&self) -> (r: Self)
        ensures
            r == *self,
    {
        TagEntity { tag: self.tag.clone() }
    }
}

impl Clone for TagArticleEntity {
    fn clone(&self) -> (r: Self)
        ensures
            r == *self,
    {
        TagArticleEntity { tag: self.tag.clone(), article_id: self.article_id }
    }
}

/// The tags of a new article, in the order given; none where the list is
/// absent.
pub open spec fn tag_list_of(new_article: NewArticle) -> Seq<String> {
    match new_article.tag_list {
        Some(list) => list@,
        None => Seq::empty(),
    }
}

/// The values of a list of tags.
pub open spec fn tag_values(list: Seq<String>) -> Seq<Seq<char>> {
    Seq::new(list.len(), |k: int| list[k]@)
}

/// One tag row for each tag of the list.
pub open spec fn tag_rows(list: Seq<String>) -> Seq<TagEntity> {
    Seq::new(list.len(), |k: int| TagEntity { tag: list[k] })
}

/// One association with the article for each tag of the list.
pub open spec fn associations(list: Seq<String>, article_id: i32) -> Seq<TagArticleEntity> {
    Seq::new(list.len(), |k: int| TagArticleEntity { tag: list[k], article_id })
}

/// The test that a tag row's value is not in `tags`.
pub open spec fn is_fresh(tags: Seq<TagEntity>) -> spec_fn(TagEntity) -> bool {
    |row: TagEntity| !has_tag(tags, row.tag@)
}

/// The tag rows that creating an article with the list adds to `tags`: one
/// for each tag of the list that `tags` does not hold, in the list's order.
pub open spec fn fresh_tags(tags: Seq<TagEntity>, list: Seq<String>) -> Seq<TagEntity> {
    tag_rows(list).filter(is_fresh(tags))
}

/// Where a row created at `t` is inserted: behind every row created at `t`
/// or before.
pub open spec fn insertion_point(rows: Seq<ArticleEntity>, t: i64) -> int
    decreases rows.len(),
{
    if rows.len() == 0 || rows.last().created_at <= t {
        rows.len() as int
    } else {
        insertion_point(rows.drop_last(), t)
    }
}

/// The row that article creation inserts.
pub open spec fn created_row(
    new_article: NewArticle,
    author_id: i32,
    slug: String,
    now: i64,
    id: i32,
) -> ArticleEntity {
    ArticleEntity {
        id,
        slug,
        title: new_article.title,
        description: new_article.description,
        body: new_article.body,
        created_at: now,
        updated_at: now,
        author_id,
    }
}

/// Why the store refuses to create the article, if it does: the id
/// sequence is exhausted; the slug is taken; the author is no account; or
/// a tag occurs twice in the list, so that its association would.
pub open spec fn creation_error(
    store: Store,
    new_article: NewArticle,
    author_id: i32,
    slug: Seq<char>,
) -> Option<DbError> {
    if store.next_article_id == i32::MAX {
        Some(DbError::SequenceExhausted)
    } else if has_slug(store.articles@, slug) {
        Some(DbError::UniqueViolation)
    } else if !has_user(store.users@, author_id as int) {
        Some(DbError::NotFound)
    } else if !tag_values(tag_list_of(new_article)).no_duplicates() {
        Some(DbError::UniqueViolation)
    } else {
        None
    }
}

/// The split of sorted rows at the insertion point.
pub proof fn lemma_insertion_point(rows: Seq<ArticleEntity>, t: i64)
    ensures
        0 <= insertion_point(rows, t) <= rows.len(),
        forall|i: int|
            insertion_point(rows, t) <= i < rows.len() ==> (#[trigger] rows[i]).created_at > t,
        insertion_point(rows, t) > 0 ==> rows[insertion_point(rows, t) - 1].created_at <= t,
    decreases rows.len(),
{
    if rows.len() == 0 || rows.last().created_at <= t {
    } else {
        lemma_insertion_point(rows.drop_last(), t);
        let p = insertion_point(rows.drop_last(), t);
        assert forall|i: int| p <= i < rows.len() implies (#[trigger] rows[i]).created_at > t by {
            if i < rows.len() - 1 {
                assert(rows.drop_last()[i].created_at > t);
            }
        }
        if p > 0 {
            assert(rows.drop_last()[p - 1] == rows[p - 1]);
        }
    }
}

/// Computes the insertion point for a row created at `t`.
fn find_insertion_point(rows: &Vec<ArticleEntity>, t: i64) -> (p: usize)
    ensures
        p == insertion_point(rows@, t),
        p <= rows@.len(),
{
    let mut p: usize = rows.len();
    proof {
        assert(rows@.take(p as int) =~= rows@);
    }
    while p > 0 && rows[p - 1].created_at > t
        invariant
            p <= rows@.len(),
            insertion_point(rows@, t) == insertion_point(rows@.take(p as int), t),
        decreases p,
    {
        proof {
            assert(rows@.take(p as int).drop_last() =~= rows@.take(p - 1));
        }
        p -= 1;
    }
    proof {
        lemma_insertion_point(rows@.take(p as int), t);
    }
    p
}

/// Whether a tag occurs twice in the list.
fn has_duplicate_tags(list: &Vec<String>) -> (r: bool)
    ensures
        r == !tag_values(list@).no_duplicates(),
{
    let mut i: usize = 0;
    while i < list.len()
        invariant
            i <= list@.len(),
            forall|a: int, b: int| 0 <= a < b < i ==> (#[trigger] list@[a])@ != (#[trigger] list@[b])@,
        decreases list@.len() - i,
    {
        let mut j: usize = 0;
        while j < i
            invariant
                j <= i < list@.len(),
                forall|a: int| 0 <= a < j ==> (#[trigger] list@[a])@ != list@[i as int]@,
            decreases i - j,
        {
            if list[j] == list[i] {
                proof {
                    let v = tag_values(list@);
                    assert(v[j as int] == v[i as int]);
                }
                return true;
            }
            j += 1;
        }
        i += 1;
    }
    proof {
        let v = tag_values(list@);
        assert forall|a: int, b: int| 0 <= a < v.len() && 0 <= b < v.len() && a != b implies v[a]
            != v[b] by {
            if a < b {
                assert(list@[a]@ != list@[b]@);
            } else {
                assert(list@[b]@ != list@[a]@);
            }
        }
    }
    false
}

/// Builds the row to insert from the payload, the slug derived from the
/// title, and the time of creation.
pub fn new_article_dto_from_new_article(
    new_article: &NewArticle,
    author_id: i32,
    slug: String,
    now: i64,
) -> (r: NewArticleDTO)
    ensures
        r.title == new_article.title,
        r.description == new_article.description,
        r.body == new_article.body,
        r.slug == slug,
        r.author_id == author_id,
        r.created_at == now,
        r.updated_at == now,
{
    NewArticleDTO {
        title: new_article.title.clone(),
        description: clone_opt(&new_article.description),
        body: new_article.body.clone(),
        slug,
        author_id,
        created_at: now,
        updated_at: now,
    }
}

/// The tags held after the fresh tags of a list are appended are those
/// held before and those of the list.
pub proof fn lemma_tags_after_upsert(before: Seq<TagEntity>, list: Seq<String>)
    ensures
        forall|t: Seq<char>|
            has_tag(before + fresh_tags(before, list), t) <==> has_tag(before, t) || tag_values(
                list,
            ).contains(t),
{
    let fresh = fresh_tags(before, list);
    let after = before + fresh;
    assert forall|t: Seq<char>| has_tag(after, t) implies has_tag(before, t) || tag_values(
        list,
    ).contains(t) by {
        let i = choose|i: int| 0 <= i < after.len() && #[trigger] after[i].tag@ == t;
        if i < before.len() {
            assert(before[i].tag@ == t);
        } else {
            let row = fresh[i - before.len()];
            assert(fresh.contains(row));
            tag_rows(list).lemma_filter_contains_rev(is_fresh(before), row);
            let m = choose|m: int| 0 <= m < tag_rows(list).len() && tag_rows(list)[m] == row;
            assert(tag_values(list)[m] == t);
        }
    }
    assert forall|t: Seq<char>| has_tag(before, t) || tag_values(list).contains(t) implies has_tag(
        after,
        t,
    ) by {
        if has_tag(before, t) {
            let i = choose|i: int| 0 <= i < before.len() && #[trigger] before[i].tag@ == t;
            assert(after[i].tag@ == t);
        } else {
            let m = choose|m: int| 0 <= m < tag_values(list).len() && tag_values(list)[m] == t;
            let row = tag_rows(list)[m];
            assert(row.tag@ == t);
            assert(is_fresh(before)(row));
            tag_rows(list).lemma_filter_contains(is_fresh(before), m);
            let i = choose|i: int| 0 <= i < fresh.len() && fresh[i] == row;
            assert(after[before.len() + i].tag@ == t);
        }
    }
}

/// Adds to the tag table each tag of the list that it does not hold yet.
/// A tag that is there already is passed over in silence.
fn upsert_tags(tags: &mut Vec<TagEntity>, list: &Vec<String>)
    requires
        tags_wf(old(tags)@),
        tag_values(list@).no_duplicates(),
    ensures
        tags_wf(final(tags)@),
        final(tags)@ == old(tags)@ + fresh_tags(old(tags)@, list@),
        forall|t: Seq<char>|
            has_tag(final(tags)@, t) <==> has_tag(old(tags)@, t) || tag_values(list@).contains(t),
{
    let ghost before = tags@;
    let mut k: usize = 0;
    proof {
        reveal(Seq::filter);
        assert(tag_rows(list@.take(0)) =~= Seq::<TagEntity>::empty());
        assert(tags@ =~= before + fresh_tags(before, list@.take(0)));
    }
    while k < list.len()
        invariant
            k <= list@.len(),
            before == old(tags)@,
            tags_wf(tags@),
            tag_values(list@).no_duplicates(),
            tags@ == before + fresh_tags(before, list@.take(k as int)),
        decreases list@.len() - k,
    {
        let ghost prior = tags@;
        let ghost value = list@[k as int]@;
        let held = tags_contain(tags, &list[k]);
        proof {
            let head = list@.take(k as int);
            let next = list@.take(k + 1);
            let row = TagEntity { tag: list@[k as int] };
            assert(tag_rows(next) =~= tag_rows(head).push(row));
            assert(tag_rows(next).drop_last() =~= tag_rows(head));
            reveal(Seq::filter);
            lemma_tags_after_upsert(before, head);
            if tag_values(head).contains(value) {
                let m = choose|m: int| 0 <= m < tag_values(head).len() && tag_values(head)[m] == value;
                assert(tag_values(list@)[m] == value);
                assert(tag_values(list@)[k as int] == value);
            }
            assert(held == has_tag(before, value));
            assert(fresh_tags(before, next) == if held {
                fresh_tags(before, head)
            } else {
                fresh_tags(before, head).push(row)
            });
        }
        if !held {
            tags.push(TagEntity { tag: list[k].clone() });
            proof {
                let row = TagEntity { tag: list@[k as int] };
                assert(tags@ =~= before + fresh_tags(before, list@.take(k as int)).push(row));
                assert forall|a: int, b: int| 0 <= a < b < tags@.len() implies (
                #[trigger] tags@[a]).tag@ != (#[trigger] tags@[b]).tag@ by {
                    if b == prior.len() {
                        assert(prior[a].tag@ == tags@[a].tag@);
                    } else {
                        assert(prior[a] == tags@[a] && prior[b] == tags@[b]);
                    }
                }
            }
        }
        k += 1;
    }
    proof {
        assert(list@.take(k as int) =~= list@);
        lemma_tags_after_upsert(before, list@);
        assert(forall|t: Seq<char>|
            has_tag(tags@, t) <==> has_tag(old(tags)@, t) || tag_values(list@).contains(t));
    }
}

/// Appends one association with the article for each tag of the list.
fn associate_tags(rows: &mut Vec<TagArticleEntity>, list: &Vec<String>, article_id: i32)
    ensures
        final(rows)@ == old(rows)@ + associations(list@, article_id),
{
    let ghost before = rows@;
    let mut k: usize = 0;
    proof {
        assert(rows@ =~= before + associations(list@.take(0), article_id));
    }
    while k < list.len()
        invariant
            k <= list@.len(),
            before == old(rows)@,
            rows@ == before + associations(list@.take(k as int), article_id),
        decreases list@.len() - k,
    {
        rows.push(TagArticleEntity { tag: list[k].clone(), article_id });
        proof {
            assert(associations(list@.take(k + 1), article_id) =~= associations(
                list@.take(k as int),
                article_id,
            ).push((TagArticleEntity { tag: list@[k as int], article_id })));
            assert(rows@ =~= before + associations(list@.take(k + 1), article_id));
        }
        k += 1;
    }
    proof {
        assert(list@.take(k as int) =~= list@);
    }
}

/// A row of a table after an insertion is the inserted row or a row of the
/// table before, in the same order.
pub proof fn lemma_insert_at(rows: Seq<ArticleEntity>, p: int, row: ArticleEntity, i: int)
    requires
        0 <= p <= rows.len(),
        0 <= i <= rows.len(),
    ensures
        rows.insert(p, row).len() == rows.len() + 1,
        i < p ==> rows.insert(p, row)[i] == rows[i],
        i == p ==> rows.insert(p, row)[i] == row,
        i > p ==> rows.insert(p, row)[i] == rows[i - 1],
{
}

/// An article is in the table after an insertion if it was there before
/// or is the one inserted.
pub proof fn lemma_has_article_after_insert(rows: Seq<ArticleEntity>, p: int, row: ArticleEntity)
    requires
        0 <= p <= rows.len(),
    ensures
        forall|id: int|
            has_article(rows.insert(p, row), id) <==> has_article(rows, id) || id == row.id,
{
    let after = rows.insert(p, row);
    assert forall|id: int| has_article(after, id) <==> has_article(rows, id) || id == row.id by {
        if has_article(after, id) {
            let i = choose|i: int| 0 <= i < after.len() && #[trigger] after[i].id == id;
            lemma_insert_at(rows, p, row, i);
            if i < p {
                assert(rows[i].id == id);
            } else if i > p {
                assert(rows[i - 1].id == id);
            }
        }
        if has_article(rows, id) {
            let i = choose|i: int| 0 <= i < rows.len() && #[trigger] rows[i].id == id;
            if i < p {
                lemma_insert_at(rows, p, row, i);
                assert(after[i].id == id);
            } else {
                lemma_insert_at(rows, p, row, i + 1);
                assert(after[i + 1].id == id);
            }
        }
        if id == row.id {
            lemma_insert_at(rows, p, row, p);
            assert(after[p].id == id);
        }
    }
}

/// Inserting a row with a fresh id and slug at its insertion point keeps
/// the article table well formed.
pub proof fn lemma_articles_after_insert(rows: Seq<ArticleEntity>, next: int, row: ArticleEntity)
    requires
        articles_wf(rows, next),
        row.id == next,
        !has_slug(rows, row.slug@),
    ensures
        articles_wf(rows.insert(insertion_point(rows, row.created_at), row), next + 1),
        !has_article(rows, row.id as int),
{
    let p = insertion_point(rows, row.created_at);
    lemma_insertion_point(rows, row.created_at);
    let after = rows.insert(p, row);
    lemma_insert_at(rows, p, row, 0);
    assert forall|i: int| 0 <= i < after.len() implies (#[trigger] after[i]).id < next + 1 by {
        lemma_insert_at(rows, p, row, i);
    }
    assert forall|i: int, j: int| 0 <= i < j < after.len() implies (#[trigger] after[i]).id != (
    #[trigger] after[j]).id by {
        lemma_insert_at(rows, p, row, i);
        lemma_insert_at(rows, p, row, j);
    }
    assert forall|i: int, j: int| 0 <= i < j < after.len() implies (#[trigger] after[i]).slug@ != (
    #[trigger] after[j]).slug@ by {
        lemma_insert_at(rows, p, row, i);
        lemma_insert_at(rows, p, row, j);
    }
    assert forall|i: int, j: int| 0 <= i < j < after.len() implies (#[trigger] after[i]).created_at
        <= (#[trigger] after[j]).created_at by {
        lemma_insert_at(rows, p, row, i);
        lemma_insert_at(rows, p, row, j);
        if i == p {
            assert(rows[j - 1].created_at > row.created_at);
        } else if j == p {
            if i < p - 1 {
                assert(rows[i].created_at <= rows[p - 1].created_at);
            }
        }
    }
}

/// Appending the associations of a new article keeps the association
/// table well formed.
pub proof fn lemma_tag_article_after_create(
    rows: Seq<TagArticleEntity>,
    tags: Seq<TagEntity>,
    articles: Seq<ArticleEntity>,
    tags_after: Seq<TagEntity>,
    articles_after: Seq<ArticleEntity>,
    list: Seq<String>,
    id: i32,
)
    requires
        tag_article_wf(rows, tags, articles),
        !has_article(articles, id as int),
        tag_values(list).no_duplicates(),
        forall|t: Seq<char>|
            has_tag(tags, t) || tag_values(list).contains(t) ==> has_tag(tags_after, t),
        forall|x: int| has_article(articles, x) || x == id ==> has_article(articles_after, x),
    ensures
        tag_article_wf(rows + associations(list, id), tags_after, articles_after),
{
    let after = rows + associations(list, id);
    assert forall|i: int| 0 <= i < after.len() implies has_tag(
        tags_after,
        (#[trigger] after[i]).tag@,
    ) && has_article(articles_after, after[i].article_id as int) by {
        if i < rows.len() {
            assert(after[i] == rows[i]);
            assert(has_tag(tags, rows[i].tag@));
            assert(has_article(articles, rows[i].article_id as int));
        } else {
            let k = i - rows.len();
            assert(after[i] == associations(list, id)[k]);
            assert(tag_values(list)[k] == list[k]@);
            assert(tag_values(list).contains(list[k]@));
        }
    }
    assert forall|i: int, j: int| 0 <= i < j < after.len() implies !((#[trigger] after[i]).tag@
        == (#[trigger] after[j]).tag@ && after[i].article_id == after[j].article_id) by {
        if j < rows.len() {
            assert(after[i] == rows[i] && after[j] == rows[j]);
        } else if i < rows.len() {
            assert(after[i] == rows[i]);
            assert(has_article(articles, rows[i].article_id as int));
            assert(after[j].article_id == id);
        } else {
            let a = i - rows.len();
            let b = j - rows.len();
            assert(after[i] == associations(list, id)[a]);
            assert(after[j] == associations(list, id)[b]);
            assert(tag_values(list)[a] == list[a]@);
            assert(tag_values(list)[b] == list[b]@);
        }
    }
}

/// The store `post` is the store `pre` after the article was created from
/// the payload: the row stands at its insertion point, the sequence has
/// moved on, the fresh tags of the list are in the tag table, and each tag
/// of the list is associated with the article. Nothing else has changed.
pub open spec fn article_created(
    pre: Store,
    post: Store,
    new_article: NewArticle,
    article: ArticleEntity,
) -> bool {
    &&& article.id == pre.next_article_id
    &&& post.articles@ == pre.articles@.insert(
        insertion_point(pre.articles@, article.created_at),
        article,
    )
    &&& post.next_article_id == pre.next_article_id + 1
    &&& post.tags@ == pre.tags@ + fresh_tags(pre.tags@, tag_list_of(new_article))
    &&& post.tag_article@ == pre.tag_article@ + associations(tag_list_of(new_article), article.id)
    &&& post == (Store {
        articles: post.articles,
        next_article_id: post.next_article_id,
        tags: post.tags,
        tag_article: post.tag_article,
        ..pre
    })
}

/// The store `post` is the store `pre` after the article with the id was
/// removed, with its tag associations and its favorite edges. Nothing else
/// has changed.
pub open spec fn article_deleted(pre: Store, post: Store, id: int) -> bool {
    &&& post.articles@ == pre.articles@.filter(not_article(id))
    &&& post.tag_article@ == pre.tag_article@.filter(not_tagging(id))
    &&& post.user_favorites_article.rows@ == pre.user_favorites_article.rows@.filter(not_into(id))
    &&& post.user_favorites_article@ == pre.user_favorites_article@.restrict(keys_not_into(id))
    &&& !has_article(post.articles@, id)
    &&& post == (Store {
        articles: post.articles,
        tag_article: post.tag_article,
        user_favorites_article: post.user_favorites_article,
        ..pre
    })
}

/// Creates an article as one unit: the row is inserted under the next id
/// of the sequence, each tag of the list is added to the tag table unless
/// it is there already, and each is associated with the article. Where the
/// store refuses any step, nothing is changed.
///
/// `slug` is the slug derived from the title and `now` the time of
/// creation.
pub fn create_at(
    store: &mut Store,
    new_article: NewArticle,
    given_author_id: i32,
    slug: String,
    now: i64,
) -> (r: QueryResult<ArticleEntity>)
    requires
        old(store).wf(),
    ensures
        final(store).wf(),
        match r {
            Ok(article) => {
                &&& creation_error(*old(store), new_article, given_author_id, slug@) is None
                &&& article == created_row(
                    new_article,
                    given_author_id,
                    slug,
                    now,
                    old(store).next_article_id,
                )
                &&& article_created(*old(store), *final(store), new_article, article)
            },
            Err(e) => {
                &&& creation_error(*old(store), new_article, given_author_id, slug@) == Some(e)
                &&& *final(store) == *old(store)
            },
        },
{
    if store.next_article_id == i32::MAX {
        return Err(DbError::SequenceExhausted);
    }
    if store.find_article_by_slug(&slug).is_some() {
        return Err(DbError::UniqueViolation);
    }
    if store.find_user_by_id(given_author_id).is_none() {
        return Err(DbError::NotFound);
    }
    let duplicate = match &new_article.tag_list {
        Some(list) => has_duplicate_tags(list),
        None => false,
    };
    if duplicate {
        return Err(DbError::UniqueViolation);
    }
    proof {
        if new_article.tag_list is None {
            assert(tag_values(tag_list_of(new_article)) =~= Seq::<Seq<char>>::empty());
        }
    }
    let dto = new_article_dto_from_new_article(&new_article, given_author_id, slug, now);
    let row = ArticleEntity {
        id: store.next_article_id,
        slug: dto.slug,
        title: dto.title,
        description: dto.description,
        body: dto.body,
        created_at: dto.created_at,
        updated_at: dto.updated_at,
        author_id: dto.author_id,
    };
    let copy = row.clone();
    let position = find_insertion_point(&store.articles, now);
    proof {
        lemma_articles_after_insert(store.articles@, store.next_article_id as int, row);
        lemma_has_article_after_insert(store.articles@, position as int, row);
    }
    store.articles.insert(position, row);
    store.next_article_id = store.next_article_id + 1;
    let ghost list = tag_list_of(new_article);
    match &new_article.tag_list {
        Some(tags) => {
            upsert_tags(&mut store.tags, tags);
            associate_tags(&mut store.tag_article, tags, copy.id);
        },
        None => {
            proof {
                reveal(Seq::filter);
                assert(tag_rows(list) =~= Seq::<TagEntity>::empty());
                assert(store.tags@ =~= old(store).tags@ + fresh_tags(old(store).tags@, list));
                assert(store.tag_article@ =~= old(store).tag_article@ + associations(list, copy.id));
            }
        },
    }
    proof {
        lemma_tag_article_after_create(
            old(store).tag_article@,
            old(store).tags@,
            old(store).articles@,
            store.tags@,
            store.articles@,
            list,
            copy.id,
        );
        assert forall|i: int| 0 <= i < store.articles@.len() implies has_user(
            store.users@,
            (#[trigger] store.articles@[i]).author_id as int,
        ) by {
            lemma_insert_at(old(store).articles@, position as int, copy, i);
            if i > position {
                assert(has_user(store.users@, old(store).articles@[i - 1].author_id as int));
            }
        }
        assert forall|i: int| 0 <= i < store.user_favorites_article.rows@.len() implies has_article(
            store.articles@,
            (#[trigger] store.user_favorites_article.rows@[i]).target as int,
        ) by {
            assert(has_article(
                old(store).articles@,
                old(store).user_favorites_article.rows@[i].target as int,
            ));
        }
    }
    Ok(copy)
}


/// The article with the slug, or `NotFound`.
pub fn get_by_slug(store: &Store, given_slug: String) -> (r: QueryResult<ArticleEntity>)
    requires
        store.wf(),
    ensures
        match r {
            Ok(article) => has_slug(store.articles@, given_slug@) && article
                == store.article_with_slug(given_slug@),
            Err(e) => e == DbError::NotFound && !has_slug(store.articles@, given_slug@),
        },
{
    match store.find_article_by_slug(&given_slug) {
        Some(i) => {
            proof {
                lemma_article_with_slug(store, i as int);
            }
            Ok(store.articles[i].clone())
        },
        None => Err(DbError::NotFound),
    }
}

/// The store differs from `pre` in the favorite edges only, where the edge
/// from `user` to `article` now carries `active`.
pub open spec fn favorite_written(
    pre: Store,
    post: Store,
    user: int,
    article: int,
    active: bool,
) -> bool {
    &&& post == (Store { user_favorites_article: post.user_favorites_article, ..pre })
    &&& post.user_favorites_article@ == pre.user_favorites_article@.insert((user, article), active)
}

/// The store differs from `pre` in the favorite edges only, where the edge
/// from `user` to `article` exists now: as it was, or inactive if it was
/// absent.
pub open spec fn favorite_materialized(pre: Store, post: Store, user: int, article: int) -> bool {
    &&& post == (Store { user_favorites_article: post.user_favorites_article, ..pre })
    &&& post.user_favorites_article@ == if pre.user_favorites_article@.contains_key(
        (user, article),
    ) {
        pre.user_favorites_article@
    } else {
        pre.user_favorites_article@.insert((user, article), false)
    }
}

/// Favorite edges stay valid when one more is written between an account
/// and an article that exist.
proof fn lemma_favorite_reference_kept(
    before: Seq<Edge>,
    after: Seq<Edge>,
    users: Seq<UserEntity>,
    articles: Seq<ArticleEntity>,
    source: int,
    target: int,
)
    requires
        favorites_reference(before, users, articles),
        has_user(users, source),
        has_article(articles, target),
        keys_from(before, after, source, target),
    ensures
        favorites_reference(after, users, articles),
{
    assert forall|i: int| 0 <= i < after.len() implies has_user(
        users,
        (#[trigger] after[i]).source as int,
    ) && has_article(articles, after[i].target as int) by {
        if i < before.len() && after[i].source == before[i].source && after[i].target
            == before[i].target {
            assert(has_user(users, before[i].source as int));
        }
    }
}

/// Whether the account has actively favorited the article. An edge that
/// does not exist yet is created, inactive, and reads as `false`. Fails
/// with `NotFound` when the article or the account does not exist; the
/// store is then unchanged.
pub fn get_user_favorites_article(store: &mut Store, given_user_id: i32, given_article_id: i32) -> (r:
    QueryResult<bool>)
    requires
        old(store).wf(),
    ensures
        final(store).wf(),
        match r {
            Ok(favorited) => {
                &&& has_user(old(store).users@, given_user_id as int)
                &&& has_article(old(store).articles@, given_article_id as int)
                &&& favorited == old(store).is_favorited(
                    given_user_id as int,
                    given_article_id as int,
                )
                &&& favorite_materialized(
                    *old(store),
                    *final(store),
                    given_user_id as int,
                    given_article_id as int,
                )
            },
            Err(e) => {
                &&& e == DbError::NotFound
                &&& !has_user(old(store).users@, given_user_id as int) || !has_article(
                    old(store).articles@,
                    given_article_id as int,
                )
                &&& *final(store) == *old(store)
            },
        },
{
    if store.find_article_by_id(given_article_id).is_none() {
        return Err(DbError::NotFound);
    }
    if store.find_user_by_id(given_user_id).is_none() {
        return Err(DbError::NotFound);
    }
    let favorited = store.user_favorites_article.read_through(given_user_id, given_article_id);
    proof {
        lemma_favorite_reference_kept(
            old(store).user_favorites_article.rows@,
            store.user_favorites_article.rows@,
            store.users@,
            store.articles@,
            given_user_id as int,
            given_article_id as int,
        );
    }
    Ok(favorited)
}

/// Writes the flag of the favorite edge from the account to the article:
/// the edge is inserted if absent, updated in place otherwise. Fails with
/// `NotFound` when the article or the account does not exist; the store is
/// then unchanged.
pub fn set_favorite(store: &mut Store, favorite: UserFavoritesArticle) -> (r: QueryResult<()>)
    requires
        old(store).wf(),
    ensures
        final(store).wf(),
        match r {
            Ok(_) => {
                &&& has_user(old(store).users@, favorite.user_id as int)
                &&& has_article(old(store).articles@, favorite.article_id as int)
                &&& favorite_written(
                    *old(store),
                    *final(store),
                    favorite.user_id as int,
                    favorite.article_id as int,
                    favorite.active,
                )
                &&& final(store).is_favorited(favorite.user_id as int, favorite.article_id as int)
                    == favorite.active
                &&& final(store).user_favorites_article.spec_count_active_into(
                    favorite.article_id as int,
                ) == old(store).user_favorites_article.spec_count_active_into(
                    favorite.article_id as int,
                ) + (if favorite.active {
                    1int
                } else {
                    0int
                }) - (if old(store).is_favorited(
                    favorite.user_id as int,
                    favorite.article_id as int,
                ) {
                    1int
                } else {
                    0int
                })
                &&& old(store).user_favorites_article@.contains_key(
                    (favorite.user_id as int, favorite.article_id as int),
                ) && old(store).is_favorited(favorite.user_id as int, favorite.article_id as int)
                    == favorite.active ==> final(store).user_favorites_article.rows@ == old(
                    store,
                ).user_favorites_article.rows@
            },
            Err(e) => {
                &&& e == DbError::NotFound
                &&& !has_user(old(store).users@, favorite.user_id as int) || !has_article(
                    old(store).articles@,
                    favorite.article_id as int,
                )
                &&& *final(store) == *old(store)
            },
        },
{
    if store.find_article_by_id(favorite.article_id).is_none() {
        return Err(DbError::NotFound);
    }
    if store.find_user_by_id(favorite.user_id).is_none() {
        return Err(DbError::NotFound);
    }
    store.user_favorites_article.upsert(favorite.user_id, favorite.article_id, favorite.active);
    proof {
        lemma_favorite_reference_kept(
            old(store).user_favorites_article.rows@,
            store.user_favorites_article.rows@,
            store.users@,
            store.articles@,
            favorite.user_id as int,
            favorite.article_id as int,
        );
    }
    Ok(())
}

/// The number of accounts that have actively favorited the article.
pub fn favorites_count(store: &Store, given_article_id: i32) -> (r: usize)
    ensures
        r == store.user_favorites_article.spec_count_active_into(given_article_id as int),
{
    store.user_favorites_article.count_active_into(given_article_id)
}

/// The tags of the associations whose article is `id`, in table order.
pub open spec fn tags_listed(rows: Seq<TagArticleEntity>, id: int) -> Seq<String>
    decreases rows.len(),
{
    if rows.len() == 0 {
        Seq::empty()
    } else if rows.last().article_id == id {
        tags_listed(rows.drop_last(), id).push(rows.last().tag)
    } else {
        tags_listed(rows.drop_last(), id)
    }
}

/// The listed tags of an article are exactly the tags associated with it.
pub proof fn lemma_tags_listed(rows: Seq<TagArticleEntity>, id: int)
    ensures
        forall|t: Seq<char>|
            tag_values(tags_listed(rows, id)).contains(t) <==> has_tag_article(rows, t, id),
    decreases rows.len(),
{
    let listed = tags_listed(rows, id);
    if rows.len() == 0 {
        assert forall|t: Seq<char>| tag_values(listed).contains(t) <==> has_tag_article(
            rows,
            t,
            id,
        ) by {}
    } else {
        let head = rows.drop_last();
        let inner = tags_listed(head, id);
        lemma_tags_listed(head, id);
        assert forall|t: Seq<char>| tag_values(listed).contains(t) <==> has_tag_article(
            rows,
            t,
            id,
        ) by {
            assert(tag_values(inner).contains(t) <==> has_tag_article(head, t, id));
            if tag_values(listed).contains(t) {
                let m = choose|m: int| 0 <= m < tag_values(listed).len() && tag_values(listed)[m] == t;
                if m < inner.len() {
                    assert(tag_values(inner)[m] == t);
                    let i = choose|i: int|
                        0 <= i < head.len() && (#[trigger] head[i]).tag@ == t && head[i].article_id
                            == id;
                    assert(rows[i].tag@ == t && rows[i].article_id == id);
                } else {
                    assert(rows[rows.len() - 1].tag@ == t);
                }
            }
            if has_tag_article(rows, t, id) {
                let i = choose|i: int|
                    0 <= i < rows.len() && (#[trigger] rows[i]).tag@ == t && rows[i].article_id == id;
                if i < head.len() {
                    assert(head[i].tag@ == t && head[i].article_id == id);
                    let m = choose|m: int| 0 <= m < tag_values(inner).len() && tag_values(inner)[m] == t;
                    assert(tag_values(listed)[m] == t);
                } else {
                    assert(tag_values(listed)[listed.len() - 1] == t);
                }
            }
        }
    }
}

/// The tags of an article, in the order in which they were associated.
pub fn tag_list(store: &Store, given_article_id: i32) -> (r: Vec<String>)
    ensures
        r@ == tags_listed(store.tag_article@, given_article_id as int),
        forall|t: Seq<char>|
            tag_values(r@).contains(t) <==> store.tags_of(given_article_id as int).contains(t),
{
    let mut out: Vec<String> = Vec::new();
    let mut i: usize = 0;
    while i < store.tag_article.len()
        invariant
            i <= store.tag_article@.len(),
            out@ == tags_listed(store.tag_article@.take(i as int), given_article_id as int),
        decreases store.tag_article@.len() - i,
    {
        proof {
            assert(store.tag_article@.take(i + 1).drop_last() =~= store.tag_article@.take(i as int));
        }
        if store.tag_article[i].article_id == given_article_id {
            out.push(store.tag_article[i].tag.clone());
        }
        i += 1;
    }
    proof {
        assert(store.tag_article@.take(i as int) =~= store.tag_article@);
        lemma_tags_listed(store.tag_article@, given_article_id as int);
        assert(forall|t: Seq<char>|
            tag_values(out@).contains(t) <==> store.tags_of(given_article_id as int).contains(t));
    }
    out
}


/// The criteria that select articles. Those that are present must all
/// hold.
#[derive(Debug)]
pub struct Selection {
    /// The article carries this tag.
    pub tag: Option<String>,
    /// This account wrote the article.
    pub author_id: Option<i32>,
    /// This account has actively favorited the article.
    pub favorited_by: Option<i32>,
    /// This account actively follows the article's author.
    pub followed_by: Option<i32>,
}

impl Selection {
    /// Whether the article meets every criterion that is present.
    pub open spec fn admits(self, store: Store, article: ArticleEntity) -> bool {
        &&& self.tag is Some ==> has_tag_article(
            store.tag_article@,
            self.tag->0@,
            article.id as int,
        )
        &&& self.author_id is Some ==> article.author_id == self.author_id->0
        &&& self.favorited_by is Some ==> store.is_favorited(
            self.favorited_by->0 as int,
            article.id as int,
        )
        &&& self.followed_by is Some ==> store.is_following(
            self.followed_by->0 as int,
            article.author_id as int,
        )
    }

    /// The selection as a test on rows.
    pub open spec fn test(self, store: Store) -> spec_fn(ArticleEntity) -> bool {
        |article: ArticleEntity| self.admits(store, article)
    }

    /// The articles selected, in ascending order of creation time.
    pub open spec fn selected(self, store: Store) -> Seq<ArticleEntity> {
        store.articles@.filter(self.test(store))
    }

    /// Decides whether the article meets the selection.
    pub fn check(&self, store: &Store, article: &ArticleEntity) -> (r: bool)
        requires
            store.wf(),
        ensures
            r == self.admits(*store, *article),
    {
        let tagged = match &self.tag {
            Some(tag) => store.contains_tag_article(tag, article.id),
            None => true,
        };
        let written = match self.author_id {
            Some(id) => article.author_id == id,
            None => true,
        };
        let favorited = match self.favorited_by {
            Some(id) => match store.user_favorites_article.get(id, article.id) {
                Some(active) => active,
                None => false,
            },
            None => true,
        };
        let followed = match self.followed_by {
            Some(id) => match store.follows.get(id, article.author_id) {
                Some(active) => active,
                None => false,
            },
            None => true,
        };
        tagged && written && favorited && followed
    }
}

/// The offset of a page: 0 where none is given.
pub open spec fn offset_of(offset: Option<i32>) -> int {
    match offset {
        Some(n) => n as int,
        None => 0,
    }
}

/// The limit of a page: 20 where none is given.
pub open spec fn limit_of(limit: Option<i32>) -> int {
    match limit {
        Some(n) => n as int,
        None => 20,
    }
}

/// Reads the window of a page; `None` where the offset or the limit is
/// negative.
pub fn window(offset: Option<i32>, limit: Option<i32>) -> (r: Option<(usize, usize)>)
    ensures
        match r {
            Some((start, size)) => start == offset_of(offset) && size == limit_of(limit),
            None => offset_of(offset) < 0 || limit_of(limit) < 0,
        },
{
    let start: i32 = match offset {
        Some(n) => n,
        None => 0,
    };
    let size: i32 = match limit {
        Some(n) => n,
        None => 20,
    };
    if start < 0 || size < 0 {
        None
    } else {
        Some((start as usize, size as usize))
    }
}

/// The page of the selected articles that starts `offset` rows in and
/// holds `limit` rows at most, in ascending order of creation time.
pub fn select_page(store: &Store, selection: &Selection, offset: usize, limit: usize) -> (r: Vec<
    ArticleEntity,
>)
    requires
        store.wf(),
    ensures
        r@ == page_of(selection.selected(*store), offset as int, limit as int),
{
    let mut out: Vec<ArticleEntity> = Vec::new();
    let mut seen: usize = 0;
    let mut i: usize = 0;
    let ghost test = selection.test(*store);
    proof {
        reveal(Seq::filter);
        assert(store.articles@.take(0).filter(test) =~= Seq::<ArticleEntity>::empty());
        assert(out@ =~= page_of(store.articles@.take(0).filter(test), offset as int, limit as int));
    }
    while i < store.articles.len()
        invariant
            store.wf(),
            i <= store.articles@.len(),
            test == selection.test(*store),
            seen <= i,
            seen == store.articles@.take(i as int).filter(test).len(),
            out@ == page_of(store.articles@.take(i as int).filter(test), offset as int, limit as int),
        decreases store.articles@.len() - i,
    {
        let admitted = selection.check(store, &store.articles[i]);
        proof {
            lemma_filter_take_next(store.articles@, i as int, test);
            lemma_page_push(
                store.articles@.take(i as int).filter(test),
                store.articles@[i as int],
                offset as int,
                limit as int,
            );
        }
        if admitted {
            if seen >= offset && out.len() < limit {
                out.push(store.articles[i].clone());
            }
            seen += 1;
        }
        i += 1;
    }
    proof {
        assert(store.articles@.take(i as int) =~= store.articles@);
    }
    out
}

/// The selection that the options of a listing stand for, once the
/// usernames are resolved to ids.
pub open spec fn listing_selection(store: Store, options: ArticlesOptions) -> Selection {
    Selection {
        tag: options.tag,
        author_id: match options.author {
            Some(name) => Some(store.user_named(name@).id),
            None => None,
        },
        favorited_by: match options.favorited {
            Some(name) => Some(store.user_named(name@).id),
            None => None,
        },
        followed_by: None,
    }
}

/// Why a listing is refused, if it is: the author's or the favoriting
/// account's username names no account, or the window is negative.
pub open spec fn listing_error(store: Store, options: ArticlesOptions) -> Option<DbError> {
    if options.author is Some && !has_username(store.users@, options.author->0@) {
        Some(DbError::NotFound)
    } else if options.favorited is Some && !has_username(store.users@, options.favorited->0@) {
        Some(DbError::NotFound)
    } else if offset_of(options.offset) < 0 || limit_of(options.limit) < 0 {
        Some(DbError::InvalidWindow)
    } else {
        None
    }
}

/// Resolves an optional username to the id of its account.
fn resolve_username(store: &Store, name: &Option<String>) -> (r: QueryResult<Option<i32>>)
    requires
        store.wf(),
    ensures
        match r {
            Ok(id) => match name {
                Some(n) => has_username(store.users@, n@) && id == Some(store.user_named(n@).id),
                None => id is None,
            },
            Err(e) => e == DbError::NotFound && name is Some && !has_username(
                store.users@,
                name->0@,
            ),
        },
{
    match name {
        Some(n) => match store.find_user_by_username(n) {
            Some(i) => {
                proof {
                    lemma_user_named(store, i as int);
                }
                Ok(Some(store.users[i].id))
            },
            None => Err(DbError::NotFound),
        },
        None => Ok(None),
    }
}

/// Lists the articles that meet every filter that is present: the tag, the
/// author and the favoriting account. The page starts `offset` rows in
/// (0 where absent) and holds `limit` rows at most (20 where absent), in
/// ascending order of creation time. The count reported is the number of
/// rows in the page.
pub fn get_articles(store: &Store, options: ArticlesOptions) -> (r: QueryResult<ArticlesPage>)
    requires
        store.wf(),
    ensures
        match r {
            Ok(page) => {
                &&& listing_error(*store, options) is None
                &&& page.articles@ == page_of(
                    listing_selection(*store, options).selected(*store),
                    offset_of(options.offset),
                    limit_of(options.limit),
                )
                &&& page.articles_count == page.articles@.len()
            },
            Err(e) => listing_error(*store, options) == Some(e),
        },
{
    let author_id = match resolve_username(store, &options.author) {
        Ok(id) => id,
        Err(e) => {
            return Err(e);
        },
    };
    let favorited_by = match resolve_username(store, &options.favorited) {
        Ok(id) => id,
        Err(e) => {
            return Err(e);
        },
    };
    let (offset, limit) = match window(options.offset, options.limit) {
        Some(w) => w,
        None => {
            return Err(DbError::InvalidWindow);
        },
    };
    let selection = Selection { tag: options.tag, author_id, favorited_by, followed_by: None };
    let articles = select_page(store, &selection, offset, limit);
    let count = articles.len() as i32;
    Ok(ArticlesPage { articles, articles_count: count })
}

/// The selection of the feed of an account: the articles whose author the
/// account actively follows.
pub open spec fn feed_selection(user_id: i32) -> Selection {
    Selection { tag: None, author_id: None, favorited_by: None, followed_by: Some(user_id) }
}

/// The feed of an account: the articles written by the accounts it
/// actively follows, with the window and the order of a listing. An
/// account that follows no one receives an empty page. Fails with
/// `InvalidWindow` when the offset or the limit is negative.
pub fn get_feed(store: &Store, user_id: i32, options: FeedOptions) -> (r: QueryResult<ArticlesPage>)
    requires
        store.wf(),
    ensures
        match r {
            Ok(page) => {
                &&& offset_of(options.offset) >= 0 && limit_of(options.limit) >= 0
                &&& page.articles@ == page_of(
                    feed_selection(user_id).selected(*store),
                    offset_of(options.offset),
                    limit_of(options.limit),
                )
                &&& page.articles_count == page.articles@.len()
            },
            Err(e) => e == DbError::InvalidWindow && (offset_of(options.offset) < 0 || limit_of(
                options.limit,
            ) < 0),
        },
{
    let (offset, limit) = match window(options.offset, options.limit) {
        Some(w) => w,
        None => {
            return Err(DbError::InvalidWindow);
        },
    };
    let selection = Selection {
        tag: None,
        author_id: None,
        favorited_by: None,
        followed_by: Some(user_id),
    };
    let articles = select_page(store, &selection, offset, limit);
    let count = articles.len() as i32;
    Ok(ArticlesPage { articles, articles_count: count })
}


/// The test that an article does not have the id.
pub open spec fn not_article(id: int) -> spec_fn(ArticleEntity) -> bool {
    |a: ArticleEntity| a.id != id
}

/// The test that an association does not belong to the article.
pub open spec fn not_tagging(id: int) -> spec_fn(TagArticleEntity) -> bool {
    |row: TagArticleEntity| row.article_id != id
}

/// The articles left when the one with the id is removed are the others.
pub proof fn lemma_has_article_without(rows: Seq<ArticleEntity>, id: int)
    ensures
        forall|x: int|
            has_article(rows.filter(not_article(id)), x) <==> has_article(rows, x) && x != id,
{
    let kept = rows.filter(not_article(id));
    lemma_filter_members(rows, not_article(id));
    assert forall|x: int| has_article(kept, x) <==> has_article(rows, x) && x != id by {
        if has_article(kept, x) {
            let i = choose|i: int| 0 <= i < kept.len() && #[trigger] kept[i].id == x;
            assert(not_article(id)(kept[i]) && rows.contains(kept[i]));
            let k = choose|k: int| 0 <= k < rows.len() && rows[k] == kept[i];
            assert(rows[k].id == x);
        }
        if has_article(rows, x) && x != id {
            let k = choose|k: int| 0 <= k < rows.len() && #[trigger] rows[k].id == x;
            assert(not_article(id)(rows[k]));
            assert(kept.contains(rows[k]));
            let i = choose|i: int| 0 <= i < kept.len() && kept[i] == rows[k];
            assert(kept[i].id == x);
        }
    }
}

/// Removing an article keeps the article table well formed.
pub proof fn lemma_articles_without(
    rows: Seq<ArticleEntity>,
    users: Seq<UserEntity>,
    next: int,
    id: int,
)
    requires
        articles_wf(rows, next),
        authors_exist(rows, users),
    ensures
        articles_wf(rows.filter(not_article(id)), next),
        authors_exist(rows.filter(not_article(id)), users),
{
    let keep = not_article(id);
    let kept = rows.filter(keep);
    lemma_filter_members(rows, keep);
    assert forall|i: int| 0 <= i < kept.len() implies (#[trigger] kept[i]).id < next && has_user(
        users,
        kept[i].author_id as int,
    ) by {
        assert(rows.contains(kept[i]));
        let k = choose|k: int| 0 <= k < rows.len() && rows[k] == kept[i];
        assert(rows[k].id < next);
    }
    let apart = |a: ArticleEntity, b: ArticleEntity|
        a.id != b.id && a.slug@ != b.slug@ && a.created_at <= b.created_at;
    assert forall|i: int, j: int| 0 <= i < j < rows.len() implies apart(
        #[trigger] rows[i],
        #[trigger] rows[j],
    ) by {
        assert(rows[i].id != rows[j].id);
        assert(rows[i].slug@ != rows[j].slug@);
        assert(rows[i].created_at <= rows[j].created_at);
    }
    lemma_filter_pairwise(rows, keep, apart);
    assert forall|i: int, j: int| 0 <= i < j < kept.len() implies (#[trigger] kept[i]).id != (
    #[trigger] kept[j]).id && kept[i].slug@ != kept[j].slug@ && kept[i].created_at
        <= kept[j].created_at by {
        assert(apart(kept[i], kept[j]));
    }
}

/// Removing the associations of an article together with the article
/// keeps the association table well formed.
pub proof fn lemma_tag_article_without(
    rows: Seq<TagArticleEntity>,
    tags: Seq<TagEntity>,
    articles: Seq<ArticleEntity>,
    id: int,
)
    requires
        tag_article_wf(rows, tags, articles),
    ensures
        tag_article_wf(rows.filter(not_tagging(id)), tags, articles.filter(not_article(id))),
{
    let keep = not_tagging(id);
    let kept = rows.filter(keep);
    lemma_filter_members(rows, keep);
    lemma_has_article_without(articles, id);
    assert forall|i: int| 0 <= i < kept.len() implies has_tag(tags, (#[trigger] kept[i]).tag@)
        && has_article(articles.filter(not_article(id)), kept[i].article_id as int) by {
        assert(keep(kept[i]) && rows.contains(kept[i]));
        let k = choose|k: int| 0 <= k < rows.len() && rows[k] == kept[i];
        assert(has_tag(tags, rows[k].tag@));
        assert(has_article(articles, rows[k].article_id as int));
    }
    let apart = |a: TagArticleEntity, b: TagArticleEntity|
        !(a.tag@ == b.tag@ && a.article_id == b.article_id);
    assert forall|i: int, j: int| 0 <= i < j < rows.len() implies apart(
        #[trigger] rows[i],
        #[trigger] rows[j],
    ) by {
        assert(!(rows[i].tag@ == rows[j].tag@ && rows[i].article_id == rows[j].article_id));
    }
    lemma_filter_pairwise(rows, keep, apart);
    assert forall|i: int, j: int| 0 <= i < j < kept.len() implies !((#[trigger] kept[i]).tag@ == (
    #[trigger] kept[j]).tag@ && kept[i].article_id == kept[j].article_id) by {
        assert(apart(kept[i], kept[j]));
    }
}

/// Removing the favorite edges of an article together with the article
/// keeps every favorite edge valid.
pub proof fn lemma_favorites_without(
    rows: Seq<Edge>,
    users: Seq<UserEntity>,
    articles: Seq<ArticleEntity>,
    id: int,
)
    requires
        favorites_reference(rows, users, articles),
    ensures
        favorites_reference(rows.filter(not_into(id)), users, articles.filter(not_article(id))),
{
    let kept = rows.filter(not_into(id));
    lemma_filter_members(rows, not_into(id));
    lemma_has_article_without(articles, id);
    assert forall|i: int| 0 <= i < kept.len() implies has_user(
        users,
        (#[trigger] kept[i]).source as int,
    ) && has_article(articles.filter(not_article(id)), kept[i].target as int) by {
        assert(not_into(id)(kept[i]) && rows.contains(kept[i]));
        let k = choose|k: int| 0 <= k < rows.len() && rows[k] == kept[i];
        assert(has_user(users, rows[k].source as int));
    }
}

/// The rows of the article table without the article.
fn articles_without(rows: &Vec<ArticleEntity>, id: i32) -> (kept: Vec<ArticleEntity>)
    ensures
        kept@ == rows@.filter(not_article(id as int)),
{
    let mut kept: Vec<ArticleEntity> = Vec::new();
    let mut i: usize = 0;
    proof {
        reveal(Seq::filter);
        assert(rows@.take(0).filter(not_article(id as int)) =~= Seq::<ArticleEntity>::empty());
    }
    while i < rows.len()
        invariant
            i <= rows@.len(),
            kept@ == rows@.take(i as int).filter(not_article(id as int)),
        decreases rows@.len() - i,
    {
        proof {
            lemma_filter_take_next(rows@, i as int, not_article(id as int));
        }
        if rows[i].id != id {
            kept.push(rows[i].clone());
        }
        i += 1;
    }
    proof {
        assert(rows@.take(i as int) =~= rows@);
    }
    kept
}

/// The rows of the association table without those of the article.
fn associations_without(rows: &Vec<TagArticleEntity>, id: i32) -> (kept: Vec<TagArticleEntity>)
    ensures
        kept@ == rows@.filter(not_tagging(id as int)),
{
    let mut kept: Vec<TagArticleEntity> = Vec::new();
    let mut i: usize = 0;
    proof {
        reveal(Seq::filter);
        assert(rows@.take(0).filter(not_tagging(id as int)) =~= Seq::<TagArticleEntity>::empty());
    }
    while i < rows.len()
        invariant
            i <= rows@.len(),
            kept@ == rows@.take(i as int).filter(not_tagging(id as int)),
        decreases rows@.len() - i,
    {
        proof {
            lemma_filter_take_next(rows@, i as int, not_tagging(id as int));
        }
        if rows[i].article_id != id {
            kept.push(rows[i].clone());
        }
        i += 1;
    }
    proof {
        assert(rows@.take(i as int) =~= rows@);
    }
    kept
}

/// Removes the article with the id, and with it its tag associations and
/// its favorite edges, so that no row refers to an article that is gone.
/// Tags stay in the tag table. Returns the number of articles removed: 1,
/// or 0 where no article has the id.
pub fn delete(store: &mut Store, given_article_id: i32) -> (r: QueryResult<usize>)
    requires
        old(store).wf(),
    ensures
        final(store).wf(),
        r == Ok::<usize, DbError>(
            if has_article(old(store).articles@, given_article_id as int) {
                1usize
            } else {
                0usize
            },
        ),
        article_deleted(*old(store), *final(store), given_article_id as int),
{
    let found = store.find_article_by_id(given_article_id).is_some();
    let articles = articles_without(&store.articles, given_article_id);
    let associations = associations_without(&store.tag_article, given_article_id);
    proof {
        let id = given_article_id as int;
        lemma_articles_without(store.articles@, store.users@, store.next_article_id as int, id);
        lemma_tag_article_without(store.tag_article@, store.tags@, store.articles@, id);
        lemma_favorites_without(
            store.user_favorites_article.rows@,
            store.users@,
            store.articles@,
            id,
        );
        lemma_has_article_without(store.articles@, id);
    }
    store.articles = articles;
    store.tag_article = associations;
    store.user_favorites_article.remove_into(given_article_id);
    Ok(if found { 1 } else { 0 })
}


/// The slug of a title.
pub uninterp spec fn slug_of(title: Seq<char>) -> Seq<char>;

/// Derives the slug of a title with `slugify::slugify`, with no stop
/// words, `-` as the separator and no maximum length. The contract gives
/// the outcome its name.
#[verifier::external_body]
fn derive_slug(title: &str) -> (slug: String)
    ensures
        slug@ == slug_of(title@),
{
    slugify::slugify(title, "", "-", None)
}

/// Creates an article now, as one unit: the slug is derived from the
/// title, the row is inserted under the next id of the sequence, each tag
/// of the list is added to the tag table unless it is there already, and
/// each is associated with the article. Where the store refuses any step,
/// nothing is changed.
pub fn create(store: &mut Store, new_article: NewArticle, given_author_id: i32) -> (r: QueryResult<
    ArticleEntity,
>)
    requires
        old(store).wf(),
    ensures
        final(store).wf(),
        match r {
            Ok(article) => {
                &&& creation_error(
                    *old(store),
                    new_article,
                    given_author_id,
                    slug_of(new_article.title@),
                ) is None
                &&& article.slug@ == slug_of(new_article.title@)
                &&& article == created_row(
                    new_article,
                    given_author_id,
                    article.slug,
                    article.created_at,
                    old(store).next_article_id,
                )
                &&& article_created(*old(store), *final(store), new_article, article)
            },
            Err(e) => {
                &&& creation_error(
                    *old(store),
                    new_article,
                    given_author_id,
                    slug_of(new_article.title@),
                ) == Some(e)
                &&& *final(store) == *old(store)
            },
        },
{
    let slug = derive_slug(new_article.title.as_str());
    let now = now_micros();
    create_at(store, new_article, given_author_id, slug, now)
}

} // verus!
