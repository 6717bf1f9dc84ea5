//! What holds of the operations taken together.

use vstd::prelude::*;
use crate::article::db::{
    article_created, associations, favorite_materialized, favorite_written, feed_selection,
    lemma_tags_after_upsert, tag_list_of, tag_values, ArticleEntity, Selection,
};
use crate::article::resolvers::NewArticle;
use crate::db::{has_article, has_tag_article, Store};
use crate::edges::lemma_count_none;
use crate::rows::{lemma_filter_members, lemma_filter_pairwise, page_of};
use crate::clock::spec_seconds;
use crate::user::auth::{bearer_claims, identity_at, names_account};
use crate::user::db::{follow_materialized, follow_written};

verus! {

/// After a follow the follower follows the account, after an unfollow it
/// does not, and no other pair is touched. The edge exists from then on.
pub proof fn law_follow_sets_the_edge(
    pre: Store,
    post: Store,
    follower: int,
    followed: int,
    active: bool,
)
    requires
        follow_written(pre, post, follower, followed, active),
    ensures
        post.is_following(follower, followed) == active,
        post.follows@.contains_key((follower, followed)),
        forall|a: int, b: int|
            !(a == follower && b == followed) ==> #[trigger] post.is_following(a, b)
                == pre.is_following(a, b),
        forall|k: (int, int)| pre.follows@.contains_key(k) ==> post.follows@.contains_key(k),
{
}

/// Following twice in a row is following once: the second call leaves
/// every edge as the first left it. The same holds of unfollowing twice.
pub proof fn law_follow_is_idempotent(
    before: Store,
    once: Store,
    twice: Store,
    follower: int,
    followed: int,
    active: bool,
)
    requires
        follow_written(before, once, follower, followed, active),
        follow_written(once, twice, follower, followed, active),
    ensures
        twice.follows@ == once.follows@,
        twice == (Store { follows: twice.follows, ..once }),
        forall|a: int, b: int| #[trigger] twice.is_following(a, b) == once.is_following(a, b),
{
    assert(twice.follows@ =~= once.follows@);
}

/// An unfollow after a follow ends the following and keeps the edge.
pub proof fn law_unfollow_undoes_follow(
    before: Store,
    followed_once: Store,
    after: Store,
    follower: int,
    followed: int,
)
    requires
        follow_written(before, followed_once, follower, followed, true),
        follow_written(followed_once, after, follower, followed, false),
    ensures
        followed_once.is_following(follower, followed),
        !after.is_following(follower, followed),
        after.follows@.contains_key((follower, followed)),
        after.follows@ == before.follows@.insert((follower, followed), false),
{
    assert(after.follows@ =~= before.follows@.insert((follower, followed), false));
}

/// Reading a follow edge changes what no one reads: every pair follows or
/// does not follow as before, a pair that was never touched reads as not
/// following, and the edge that was read exists from then on.
pub proof fn law_reading_a_follow_changes_no_answer(
    pre: Store,
    post: Store,
    follower: int,
    followed: int,
)
    requires
        follow_materialized(pre, post, follower, followed),
    ensures
        forall|a: int, b: int| #[trigger] post.is_following(a, b) == pre.is_following(a, b),
        !pre.follows@.contains_key((follower, followed)) ==> !pre.is_following(follower, followed),
        post.follows@.contains_key((follower, followed)),
        forall|k: (int, int)| pre.follows@.contains_key(k) ==> post.follows@.contains_key(k),
{
}

/// After a favorite is written the account has or has not favorited the
/// article as written, and no other pair is touched. The edge exists from
/// then on.
pub proof fn law_favorite_sets_the_edge(
    pre: Store,
    post: Store,
    user: int,
    article: int,
    active: bool,
)
    requires
        favorite_written(pre, post, user, article, active),
    ensures
        post.is_favorited(user, article) == active,
        post.user_favorites_article@.contains_key((user, article)),
        forall|a: int, b: int|
            !(a == user && b == article) ==> #[trigger] post.is_favorited(a, b)
                == pre.is_favorited(a, b),
        forall|k: (int, int)|
            pre.user_favorites_article@.contains_key(k) ==> post.user_favorites_article@.contains_key(
                k,
            ),
{
}

/// Writing the same favorite twice in a row is writing it once.
pub proof fn law_favorite_is_idempotent(
    before: Store,
    once: Store,
    twice: Store,
    user: int,
    article: int,
    active: bool,
)
    requires
        favorite_written(before, once, user, article, active),
        favorite_written(once, twice, user, article, active),
    ensures
        twice.user_favorites_article@ == once.user_favorites_article@,
        forall|a: int, b: int| #[trigger] twice.is_favorited(a, b) == once.is_favorited(a, b),
{
    assert(twice.user_favorites_article@ =~= once.user_favorites_article@);
}

/// Reading a favorite edge changes what no one reads: every pair is
/// favorited or not as before, a pair that was never touched reads as not
/// favorited, and the edge that was read exists from then on.
pub proof fn law_reading_a_favorite_changes_no_answer(
    pre: Store,
    post: Store,
    user: int,
    article: int,
)
    requires
        favorite_materialized(pre, post, user, article),
    ensures
        forall|a: int, b: int| #[trigger] post.is_favorited(a, b) == pre.is_favorited(a, b),
        !pre.user_favorites_article@.contains_key((user, article)) ==> !pre.is_favorited(
            user,
            article,
        ),
        post.user_favorites_article@.contains_key((user, article)),
{
}


/// A new article carries exactly the tags of its list; the tags of every
/// other article stay as they were; and the tag table holds what it held
/// and the tags of the list, each once.
pub proof fn law_created_article_is_tagged(
    pre: Store,
    post: Store,
    new_article: NewArticle,
    article: ArticleEntity,
)
    requires
        pre.wf(),
        article_created(pre, post, new_article, article),
    ensures
        post.tags_of(article.id as int) == tag_values(tag_list_of(new_article)).to_set(),
        forall|id: int| id != article.id ==> #[trigger] post.tags_of(id) == pre.tags_of(id),
        post.tag_set() == pre.tag_set().union(tag_values(tag_list_of(new_article)).to_set()),
{
    let list = tag_list_of(new_article);
    let added = associations(list, article.id);
    let before = pre.tag_article@;
    let after = post.tag_article@;
    assert forall|t: Seq<char>, id: int| #[trigger]
        has_tag_article(after, t, id) <==> has_tag_article(before, t, id) || (id == article.id
            && tag_values(list).contains(t)) by {
        if has_tag_article(after, t, id) {
            let i = choose|i: int|
                0 <= i < after.len() && (#[trigger] after[i]).tag@ == t && after[i].article_id == id;
            if i < before.len() {
                assert(before[i].tag@ == t && before[i].article_id == id);
            } else {
                let k = i - before.len();
                assert(after[i] == added[k]);
                assert(tag_values(list)[k] == t);
            }
        }
        if has_tag_article(before, t, id) {
            let i = choose|i: int|
                0 <= i < before.len() && (#[trigger] before[i]).tag@ == t && before[i].article_id
                    == id;
            assert(after[i].tag@ == t && after[i].article_id == id);
        }
        if id == article.id && tag_values(list).contains(t) {
            let k = choose|k: int| 0 <= k < tag_values(list).len() && tag_values(list)[k] == t;
            assert(after[before.len() + k] == added[k]);
            assert(after[before.len() + k].tag@ == t && after[before.len() + k].article_id == id);
        }
    }
    assert forall|t: Seq<char>| !has_tag_article(before, t, article.id as int) by {
        if has_tag_article(before, t, article.id as int) {
            let i = choose|i: int|
                0 <= i < before.len() && (#[trigger] before[i]).tag@ == t && before[i].article_id
                    == article.id;
            assert(has_article(pre.articles@, before[i].article_id as int));
            let j = choose|j: int|
                0 <= j < pre.articles@.len() && #[trigger] pre.articles@[j].id
                    == before[i].article_id;
            assert(pre.articles@[j].id < pre.next_article_id);
        }
    }
    assert(post.tags_of(article.id as int) =~= tag_values(list).to_set());
    assert forall|id: int| id != article.id implies #[trigger] post.tags_of(id) == pre.tags_of(
        id,
    ) by {
        assert(post.tags_of(id) =~= pre.tags_of(id));
    }
    lemma_tags_after_upsert(pre.tags@, list);
    assert(post.tag_set() =~= pre.tag_set().union(tag_values(list).to_set()));
}

/// A new article has no favorites.
pub proof fn law_created_article_has_no_favorites(
    pre: Store,
    post: Store,
    new_article: NewArticle,
    article: ArticleEntity,
)
    requires
        pre.wf(),
        article_created(pre, post, new_article, article),
    ensures
        post.user_favorites_article.spec_count_active_into(article.id as int) == 0,
        forall|user: int| !#[trigger] post.is_favorited(user, article.id as int),
{
    let rows = pre.user_favorites_article.rows@;
    assert forall|i: int| 0 <= i < rows.len() implies (#[trigger] rows[i]).target
        != article.id by {
        assert(has_article(pre.articles@, rows[i].target as int));
        let j = choose|j: int|
            0 <= j < pre.articles@.len() && #[trigger] pre.articles@[j].id == rows[i].target;
        assert(pre.articles@[j].id < pre.next_article_id);
    }
    lemma_count_none(rows, article.id as int);
    assert forall|user: int| !#[trigger] post.is_favorited(user, article.id as int) by {
        if post.user_favorites_article@.contains_key((user, article.id as int)) {
            let i = choose|i: int| crate::edges::key_at(rows, user, article.id as int, i);
            assert(rows[i].target == article.id);
        }
    }
}

/// A selection holds exactly the articles of the store that meet its
/// criteria, each once, in ascending order of creation time.
pub proof fn law_selection_is_exact_and_ordered(store: Store, selection: Selection)
    requires
        store.wf(),
    ensures
        forall|a: ArticleEntity| #[trigger]
            selection.selected(store).contains(a) <==> store.articles@.contains(a)
                && selection.admits(store, a),
        forall|i: int, j: int|
            0 <= i < j < selection.selected(store).len() ==> (#[trigger] selection.selected(
                store,
            )[i]).created_at <= (#[trigger] selection.selected(store)[j]).created_at,
        forall|i: int, j: int|
            0 <= i < j < selection.selected(store).len() ==> (#[trigger] selection.selected(
                store,
            )[i]).id != (#[trigger] selection.selected(store)[j]).id,
        selection.selected(store).len() <= store.articles@.len(),
{
    let rows = store.articles@;
    let test = selection.test(store);
    let kept = selection.selected(store);
    lemma_filter_members(rows, test);
    assert forall|a: ArticleEntity| #[trigger]
        kept.contains(a) <==> rows.contains(a) && selection.admits(store, a) by {
        if kept.contains(a) {
            let i = choose|i: int| 0 <= i < kept.len() && kept[i] == a;
            assert(test(kept[i]) && rows.contains(kept[i]));
        }
        if rows.contains(a) && selection.admits(store, a) {
            let k = choose|k: int| 0 <= k < rows.len() && rows[k] == a;
            assert(test(rows[k]));
            assert(kept.contains(rows[k]));
        }
    }
    let apart = |a: ArticleEntity, b: ArticleEntity| a.id != b.id && a.created_at <= b.created_at;
    assert forall|i: int, j: int| 0 <= i < j < rows.len() implies apart(
        #[trigger] rows[i],
        #[trigger] rows[j],
    ) by {
        assert(rows[i].id != rows[j].id);
        assert(rows[i].created_at <= rows[j].created_at);
    }
    lemma_filter_pairwise(rows, test, apart);
    assert forall|i: int, j: int| 0 <= i < j < kept.len() implies (#[trigger] kept[i]).created_at
        <= (#[trigger] kept[j]).created_at && kept[i].id != kept[j].id by {
        assert(apart(kept[i], kept[j]));
    }
}

/// The feed of an account holds an article of the store exactly where the
/// account actively follows its author: the articles of every followed
/// author are in it, and no article of anyone else.
pub proof fn law_feed_is_the_followed_authors(store: Store, user_id: i32, article: ArticleEntity)
    requires
        store.wf(),
        store.articles@.contains(article),
    ensures
        feed_selection(user_id).selected(store).contains(article) <==> store.is_following(
            user_id as int,
            article.author_id as int,
        ),
{
    law_selection_is_exact_and_ordered(store, feed_selection(user_id));
}

/// A listing by author holds exactly the author's articles.
pub proof fn law_listing_by_author(store: Store, author_id: i32, article: ArticleEntity)
    requires
        store.wf(),
        store.articles@.contains(article),
    ensures
        (Selection {
            tag: None,
            author_id: Some(author_id),
            favorited_by: None,
            followed_by: None,
        }).selected(store).contains(article) <==> article.author_id == author_id,
{
    law_selection_is_exact_and_ordered(
        store,
        Selection { tag: None, author_id: Some(author_id), favorited_by: None, followed_by: None },
    );
}

/// A listing by tag holds exactly the articles that carry the tag.
pub proof fn law_listing_by_tag(store: Store, tag: String, article: ArticleEntity)
    requires
        store.wf(),
        store.articles@.contains(article),
    ensures
        (Selection {
            tag: Some(tag),
            author_id: None,
            favorited_by: None,
            followed_by: None,
        }).selected(store).contains(article) <==> store.tags_of(article.id as int).contains(tag@),
{
    law_selection_is_exact_and_ordered(
        store,
        Selection { tag: Some(tag), author_id: None, favorited_by: None, followed_by: None },
    );
}

/// A page holds the rows from `offset` on, `limit` of them at most, in
/// their order; a page from the start that is long enough holds them all.
pub proof fn law_page_is_a_window<A>(rows: Seq<A>, offset: int, limit: int)
    requires
        0 <= offset,
        0 <= limit,
    ensures
        page_of(rows, offset, limit).len() == if offset >= rows.len() {
            0
        } else if rows.len() - offset < limit {
            rows.len() - offset
        } else {
            limit
        },
        forall|k: int|
            0 <= k < page_of(rows, offset, limit).len() ==> #[trigger] page_of(rows, offset, limit)[k]
                == rows[offset + k],
        offset == 0 && limit >= rows.len() ==> page_of(rows, offset, limit) == rows,
{
    if offset == 0 && limit >= rows.len() {
        assert(page_of(rows, offset, limit) =~= rows);
    }
}


/// A token that names an account is accepted at every time up to its
/// expiry, and resolves to that account and to no other; after its expiry
/// it is refused.
pub proof fn law_token_resolves_to_its_account(token: Seq<char>, id: i32, now: i64)
    requires
        names_account(token, id),
    ensures
        identity_at(Some(token), now) == if bearer_claims(Some(token))->0.exp >= spec_seconds(now) {
            Some(id)
        } else {
            None
        },
{
}

} // verus!
