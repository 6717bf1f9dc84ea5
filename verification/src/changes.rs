//! What an operation did to the store: for each table, the rows it
//! inserted, the rows it left under their key with other values, and the
//! rows it removed.

use vstd::prelude::*;
use crate::article::db::{ArticleEntity, TagArticleEntity, TagEntity};
use crate::db::Store;
use crate::edges::Edge;
use crate::user::db::UserEntity;

verus! {

/// The key of a row: two numbers and a text, of which each table uses what
/// its primary key needs.
pub type Key = (int, int, Seq<char>);

/// A row of a table.
pub trait Row: Sized {
    /// The primary key of the row.
    spec fn key(&self) -> Key;

    /// The two rows hold the same values in every column.
    spec fn same(&self, other: &Self) -> bool;

    /// A row holds the same values as itself, and rows that hold the same
    /// values have the same key.
    proof fn lemma_same(a: &Self, b: &Self)
        ensures
            a.same(a),
            a.same(b) ==> a.key() == b.key(),
    ;

    /// Decides whether the two rows have the same key.
    fn has_key_of(&self, other: &Self) -> (r: bool)
        ensures
            r == (self.key() == other.key()),
    ;

    /// Decides whether the two rows hold the same values.
    fn is_same(&self, other: &Self) -> (r: bool)
        ensures
            r == self.same(other),
    ;
}

/// Some row has the key.
pub open spec fn has_key<R: Row>(rows: Seq<R>, key: Key) -> bool {
    exists|i: int| 0 <= i < rows.len() && #[trigger] rows[i].key() == key
}

/// Some row holds the same values as `row`.
pub open spec fn holds<R: Row>(rows: Seq<R>, row: R) -> bool {
    exists|i: int| 0 <= i < rows.len() && (#[trigger] rows[i]).same(&row)
}

/// No two rows share a key.
pub open spec fn keys_unique<R: Row>(rows: Seq<R>) -> bool {
    forall|i: int, j: int|
        0 <= i < j < rows.len() ==> (#[trigger] rows[i]).key() != (#[trigger] rows[j]).key()
}

/// The three kinds of change to a table.
#[derive(Clone, Copy, Debug, PartialEq, Eq, Structural)]
pub enum Kind {
    /// A row of the table after, under a key that the table before lacks.
    Inserted,
    /// A row of the table after, under a key that the table before holds
    /// with other values.
    Updated,
    /// A row of the table before, under a key that the table after lacks.
    Removed,
}

/// The table in which a change of the kind is found: the table before for
/// a removal, the table after for an insertion or an update.
pub open spec fn scanned<R: Row>(kind: Kind, before: Seq<R>, after: Seq<R>) -> Seq<R> {
    if kind == Kind::Removed {
        before
    } else {
        after
    }
}

/// The row at position `j` of the scanned table is a change of the kind.
pub open spec fn changed_at<R: Row>(kind: Kind, before: Seq<R>, after: Seq<R>, j: int) -> bool {
    match kind {
        Kind::Inserted => !has_key(before, after[j].key()),
        Kind::Updated => has_key(before, after[j].key()) && !holds(before, after[j]),
        Kind::Removed => !has_key(after, before[j].key()),
    }
}

/// The list holds the position.
pub open spec fn listed(list: Seq<usize>, j: int) -> bool {
    exists|m: int| 0 <= m < list.len() && #[trigger] list[m] == j
}

/// The list holds, in ascending order, exactly the positions below `n` at
/// which the scanned table has a change of the kind.
pub open spec fn lists<R: Row>(
    kind: Kind,
    before: Seq<R>,
    after: Seq<R>,
    list: Seq<usize>,
    n: int,
) -> bool {
    &&& forall|k: int|
        0 <= k < list.len() ==> 0 <= #[trigger] list[k] < n && changed_at(
            kind,
            before,
            after,
            list[k] as int,
        )
    &&& forall|j: int| 0 <= j < n && #[trigger] changed_at(kind, before, after, j) ==> listed(list, j)
    &&& forall|a: int, b: int| 0 <= a < b < list.len() ==> #[trigger] list[a] < #[trigger] list[b]
}

/// The changes to one table, each as the position of a row: `inserted` and
/// `updated` in the table after, `removed` in the table before.
#[derive(Debug)]
pub struct TableChanges {
    pub inserted: Vec<usize>,
    pub updated: Vec<usize>,
    pub removed: Vec<usize>,
}

/// The changes are those that lead from the table before to the table
/// after.
pub open spec fn is_diff<R: Row>(before: Seq<R>, after: Seq<R>, d: TableChanges) -> bool {
    &&& lists(Kind::Inserted, before, after, d.inserted@, after.len() as int)
    &&& lists(Kind::Updated, before, after, d.updated@, after.len() as int)
    &&& lists(Kind::Removed, before, after, d.removed@, before.len() as int)
}

/// Decides whether some row has the key of `row`.
pub fn holds_key<R: Row>(rows: &Vec<R>, row: &R) -> (r: bool)
    ensures
        r == has_key(rows@, row.key()),
{
    let mut i: usize = 0;
    while i < rows.len()
        invariant
            i <= rows@.len(),
            forall|k: int| 0 <= k < i ==> (#[trigger] rows@[k]).key() != row.key(),
        decreases rows@.len() - i,
    {
        if rows[i].has_key_of(row) {
            return true;
        }
        i += 1;
    }
    false
}

/// Decides whether some row holds the same values as `row`.
pub fn holds_same<R: Row>(rows: &Vec<R>, row: &R) -> (r: bool)
    ensures
        r == holds(rows@, *row),
{
    let mut i: usize = 0;
    while i < rows.len()
        invariant
            i <= rows@.len(),
            forall|k: int| 0 <= k < i ==> !(#[trigger] rows@[k]).same(row),
        decreases rows@.len() - i,
    {
        if rows[i].is_same(row) {
            return true;
        }
        i += 1;
    }
    false
}

/// Decides whether the row at position `j` of the scanned table is a change
/// of the kind.
fn is_change<R: Row>(kind: Kind, before: &Vec<R>, after: &Vec<R>, j: usize) -> (r: bool)
    requires
        j < scanned(kind, before@, after@).len(),
    ensures
        r == changed_at(kind, before@, after@, j as int),
{
    match kind {
        Kind::Inserted => !holds_key(before, &after[j]),
        Kind::Updated => holds_key(before, &after[j]) && !holds_same(before, &after[j]),
        Kind::Removed => !holds_key(after, &before[j]),
    }
}

/// The positions, in ascending order, at which the scanned table has a
/// change of the kind.
pub fn positions<R: Row>(kind: Kind, before: &Vec<R>, after: &Vec<R>) -> (list: Vec<usize>)
    ensures
        lists(kind, before@, after@, list@, scanned(kind, before@, after@).len() as int),
{
    let n = match kind {
        Kind::Removed => before.len(),
        _ => after.len(),
    };
    let mut list: Vec<usize> = Vec::new();
    let mut j: usize = 0;
    while j < n
        invariant
            j <= n,
            n == scanned(kind, before@, after@).len(),
            lists(kind, before@, after@, list@, j as int),
        decreases n - j,
    {
        let ghost prior = list@;
        if is_change(kind, before, after, j) {
            list.push(j);
            proof {
                assert forall|i: int|
                    0 <= i < j + 1 && #[trigger] changed_at(kind, before@, after@, i) implies listed(
                    list@,
                    i,
                ) by {
                    if i < j {
                        assert(listed(prior, i));
                        let m = choose|m: int| 0 <= m < prior.len() && #[trigger] prior[m] == i;
                        assert(list@[m] == i);
                    } else {
                        assert(list@[prior.len() as int] == i);
                    }
                }
                assert forall|a: int, b: int| 0 <= a < b < list@.len() implies #[trigger] list@[a]
                    < #[trigger] list@[b] by {
                    if b < prior.len() {
                        assert(prior[a] < prior[b]);
                    } else {
                        assert(prior[a] < j);
                    }
                }
            }
        }
        j += 1;
    }
    list
}

/// The changes that lead from the table before to the table after.
pub fn table_changes<R: Row>(before: &Vec<R>, after: &Vec<R>) -> (d: TableChanges)
    ensures
        is_diff(before@, after@, d),
{
    TableChanges {
        inserted: positions(Kind::Inserted, before, after),
        updated: positions(Kind::Updated, before, after),
        removed: positions(Kind::Removed, before, after),
    }
}


/// The text of a column that may be null.
pub open spec fn text_of(column: Option<String>) -> Option<Seq<char>> {
    match column {
        Some(text) => Some(text@),
        None => None,
    }
}

/// Decides whether two columns that may be null hold the same text.
pub fn same_text(a: &Option<String>, b: &Option<String>) -> (r: bool)
    ensures
        r == (text_of(*a) == text_of(*b)),
{
    match (a, b) {
        (Some(x), Some(y)) => *x == *y,
        (None, None) => true,
        _ => false,
    }
}

impl Row for UserEntity {
    open spec fn key(&self) -> Key {
        (self.id as int, 0, Seq::empty())
    }

    open spec fn same(&self, other: &Self) -> bool {
        &&& self.id == other.id
        &&& self.email@ == other.email@
        &&& self.username@ == other.username@
        &&& text_of(self.bio) == text_of(other.bio)
        &&& text_of(self.image) == text_of(other.image)
        &&& text_of(self.password_hash) == text_of(other.password_hash)
    }

    proof fn lemma_same(a: &Self, b: &Self) {
    }

    fn has_key_of(&self, other: &Self) -> (r: bool) {
        self.id == other.id
    }

    fn is_same(&self, other: &Self) -> (r: bool) {
        self.id == other.id && self.email == other.email && self.username == other.username
            && same_text(&self.bio, &other.bio) && same_text(&self.image, &other.image)
            && same_text(&self.password_hash, &other.password_hash)
    }
}

impl Row for ArticleEntity {
    open spec fn key(&self) -> Key {
        (self.id as int, 0, Seq::empty())
    }

    open spec fn same(&self, other: &Self) -> bool {
        &&& self.id == other.id
        &&& self.slug@ == other.slug@
        &&& self.title@ == other.title@
        &&& text_of(self.description) == text_of(other.description)
        &&& self.body@ == other.body@
        &&& self.created_at == other.created_at
        &&& self.updated_at == other.updated_at
        &&& self.author_id == other.author_id
    }

    proof fn lemma_same(a: &Self, b: &Self) {
    }

    fn has_key_of(&self, other: &Self) -> (r: bool) {
        self.id == other.id
    }

    fn is_same(&self, other: &Self) -> (r: bool) {
        self.id == other.id && self.slug == other.slug && self.title == other.title && same_text(
            &self.description,
            &other.description,
        ) && self.body == other.body && self.created_at == other.created_at && self.updated_at
            == other.updated_at && self.author_id == other.author_id
    }
}

impl Row for TagEntity {
    open spec fn key(&self) -> Key {
        (0, 0, self.tag@)
    }

    open spec fn same(&self, other: &Self) -> bool {
        self.tag@ == other.tag@
    }

    proof fn lemma_same(a: &Self, b: &Self) {
    }

    fn has_key_of(&self, other: &Self) -> (r: bool) {
        self.tag == other.tag
    }

    fn is_same(&self, other: &Self) -> (r: bool) {
        self.tag == other.tag
    }
}

impl Row for TagArticleEntity {
    open spec fn key(&self) -> Key {
        (self.article_id as int, 0, self.tag@)
    }

    open spec fn same(&self, other: &Self) -> bool {
        self.article_id == other.article_id && self.tag@ == other.tag@
    }

    proof fn lemma_same(a: &Self, b: &Self) {
    }

    fn has_key_of(&self, other: &Self) -> (r: bool) {
        self.article_id == other.article_id && self.tag == other.tag
    }

    fn is_same(&self, other: &Self) -> (r: bool) {
        self.article_id == other.article_id && self.tag == other.tag
    }
}

impl Row for Edge {
    open spec fn key(&self) -> Key {
        (self.source as int, self.target as int, Seq::empty())
    }

    open spec fn same(&self, other: &Self) -> bool {
        self.source == other.source && self.target == other.target && self.active == other.active
    }

    proof fn lemma_same(a: &Self, b: &Self) {
    }

    fn has_key_of(&self, other: &Self) -> (r: bool) {
        self.source == other.source && self.target == other.target
    }

    fn is_same(&self, other: &Self) -> (r: bool) {
        self.source == other.source && self.target == other.target && self.active == other.active
    }
}

/// The changes to the six tables and to the two id sequences. A sequence
/// is named where its next value has changed.
#[derive(Debug)]
pub struct Changes {
    pub users: TableChanges,
    pub articles: TableChanges,
    pub tags: TableChanges,
    pub tag_article: TableChanges,
    pub follows: TableChanges,
    pub user_favorites_article: TableChanges,
    pub next_user_id: Option<i32>,
    pub next_article_id: Option<i32>,
}

/// The next value of a sequence, where it differs from the value before.
pub open spec fn moved(before: i32, after: i32) -> Option<i32> {
    if before == after {
        None
    } else {
        Some(after)
    }
}

/// The changes are those that lead from the store before to the store
/// after.
pub open spec fn is_store_diff(before: Store, after: Store, c: Changes) -> bool {
    &&& is_diff(before.users@, after.users@, c.users)
    &&& is_diff(before.articles@, after.articles@, c.articles)
    &&& is_diff(before.tags@, after.tags@, c.tags)
    &&& is_diff(before.tag_article@, after.tag_article@, c.tag_article)
    &&& is_diff(before.follows.rows@, after.follows.rows@, c.follows)
    &&& is_diff(
        before.user_favorites_article.rows@,
        after.user_favorites_article.rows@,
        c.user_favorites_article,
    )
    &&& c.next_user_id == moved(before.next_user_id, after.next_user_id)
    &&& c.next_article_id == moved(before.next_article_id, after.next_article_id)
}

/// Applying the changes to the store before gives the store after: each of
/// the six tables holds the same keys with the same values, and each
/// sequence stands at the same value.
pub open spec fn rebuilds_store(before: Store, after: Store, c: Changes) -> bool {
    &&& rebuilds(before.users@, after.users@, c.users)
    &&& rebuilds(before.articles@, after.articles@, c.articles)
    &&& rebuilds(before.tags@, after.tags@, c.tags)
    &&& rebuilds(before.tag_article@, after.tag_article@, c.tag_article)
    &&& rebuilds(before.follows.rows@, after.follows.rows@, c.follows)
    &&& rebuilds(
        before.user_favorites_article.rows@,
        after.user_favorites_article.rows@,
        c.user_favorites_article,
    )
    &&& sequence_after(before.next_user_id, c.next_user_id) == after.next_user_id
    &&& sequence_after(before.next_article_id, c.next_article_id) == after.next_article_id
}

/// The changes that lead from the store before to the store after. Where
/// both stores meet the invariant, applying the changes to the first gives
/// the second.
pub fn changes(before: &Store, after: &Store) -> (c: Changes)
    ensures
        is_store_diff(*before, *after, c),
        before.wf() && after.wf() ==> rebuilds_store(*before, *after, c),
{
    let c = Changes {
        users: table_changes(&before.users, &after.users),
        articles: table_changes(&before.articles, &after.articles),
        tags: table_changes(&before.tags, &after.tags),
        tag_article: table_changes(&before.tag_article, &after.tag_article),
        follows: table_changes(&before.follows.rows, &after.follows.rows),
        user_favorites_article: table_changes(
            &before.user_favorites_article.rows,
            &after.user_favorites_article.rows,
        ),
        next_user_id: if before.next_user_id == after.next_user_id {
            None
        } else {
            Some(after.next_user_id)
        },
        next_article_id: if before.next_article_id == after.next_article_id {
            None
        } else {
            Some(after.next_article_id)
        },
    };
    proof {
        if before.wf() && after.wf() {
            law_changes_rebuild_the_store(*before, *after, c);
        }
    }
    c
}


/// The table as a map from key to row.
pub open spec fn table<R: Row>(rows: Seq<R>) -> Map<Key, R> {
    Map::new(
        |k: Key| has_key(rows, k),
        |k: Key| rows[choose|i: int| 0 <= i < rows.len() && #[trigger] rows[i].key() == k],
    )
}

/// The row at position `j` of the table after has the key and is inserted
/// or updated by the changes.
pub open spec fn written_at<R: Row>(after: Seq<R>, d: TableChanges, k: Key, j: int) -> bool {
    0 <= j < after.len() && after[j].key() == k && (listed(d.inserted@, j) || listed(
        d.updated@,
        j,
    ))
}

/// The row at position `i` of the table before has the key and is removed
/// by the changes.
pub open spec fn removed_at<R: Row>(before: Seq<R>, d: TableChanges, k: Key, i: int) -> bool {
    0 <= i < before.len() && before[i].key() == k && listed(d.removed@, i)
}

/// The table that applying the changes to the table before gives: the
/// rows removed are taken out, and the rows inserted or updated are
/// written under their keys.
pub open spec fn applied<R: Row>(before: Seq<R>, after: Seq<R>, d: TableChanges) -> Map<Key, R> {
    Map::new(
        |k: Key|
            (exists|j: int| written_at(after, d, k, j)) || (has_key(before, k) && !exists|i: int|
                removed_at(before, d, k, i)),
        |k: Key|
            if exists|j: int| written_at(after, d, k, j) {
                after[choose|j: int| written_at(after, d, k, j)]
            } else {
                table(before)[k]
            },
    )
}

/// Applying the changes to the table before gives the table after: the
/// same keys, and under each key a row with the same values.
pub open spec fn rebuilds<R: Row>(before: Seq<R>, after: Seq<R>, d: TableChanges) -> bool {
    &&& forall|k: Key| #[trigger]
        applied(before, after, d).contains_key(k) <==> table(after).contains_key(k)
    &&& forall|k: Key|
        table(after).contains_key(k) ==> (#[trigger] applied(before, after, d)[k]).same(
            &table(after)[k],
        )
}

/// The value of a sequence after a change to it is applied.
pub open spec fn sequence_after(before: i32, change: Option<i32>) -> i32 {
    match change {
        Some(next) => next,
        None => before,
    }
}

/// Applying the changes between two tables to the first gives the second:
/// the same keys, and under each key a row with the same values.
pub proof fn law_changes_rebuild_the_table<R: Row>(before: Seq<R>, after: Seq<R>, d: TableChanges)
    requires
        keys_unique(before),
        keys_unique(after),
        is_diff(before, after, d),
    ensures
        rebuilds(before, after, d),
{
    let result = applied(before, after, d);
    assert forall|k: Key| #[trigger] result.contains_key(k) <==> table(after).contains_key(k) by {
        if result.contains_key(k) {
            if exists|j: int| written_at(after, d, k, j) {
                let j = choose|j: int| written_at(after, d, k, j);
                assert(after[j].key() == k);
            } else {
                let i = choose|i: int| 0 <= i < before.len() && #[trigger] before[i].key() == k;
                if !has_key(after, k) {
                    assert(changed_at(Kind::Removed, before, after, i));
                    assert(listed(d.removed@, i));
                    assert(removed_at(before, d, k, i));
                }
            }
        }
        if table(after).contains_key(k) {
            let j = choose|j: int| 0 <= j < after.len() && #[trigger] after[j].key() == k;
            if changed_at(Kind::Inserted, before, after, j) {
                assert(listed(d.inserted@, j));
                assert(written_at(after, d, k, j));
            } else if changed_at(Kind::Updated, before, after, j) {
                assert(listed(d.updated@, j));
                assert(written_at(after, d, k, j));
            } else {
                assert(has_key(before, k));
                if exists|i: int| removed_at(before, d, k, i) {
                    let i = choose|i: int| removed_at(before, d, k, i);
                    let m = choose|m: int| 0 <= m < d.removed@.len() && #[trigger] d.removed@[m] == i;
                    assert(changed_at(Kind::Removed, before, after, d.removed@[m] as int));
                }
            }
        }
    }
    assert forall|k: Key| table(after).contains_key(k) implies (#[trigger] result[k]).same(
        &table(after)[k],
    ) by {
        let j = choose|j: int| 0 <= j < after.len() && #[trigger] after[j].key() == k;
        assert(table(after)[k] == after[j]);
        if exists|w: int| written_at(after, d, k, w) {
            let w = choose|w: int| written_at(after, d, k, w);
            if w < j {
                assert(after[w].key() != after[j].key());
            } else if j < w {
                assert(after[j].key() != after[w].key());
            }
            R::lemma_same(&after[j], &after[j]);
        } else {
            if changed_at(Kind::Inserted, before, after, j) {
                assert(listed(d.inserted@, j));
                assert(written_at(after, d, k, j));
            }
            if changed_at(Kind::Updated, before, after, j) {
                assert(listed(d.updated@, j));
                assert(written_at(after, d, k, j));
            }
            assert(holds(before, after[j]));
            let h = choose|h: int| 0 <= h < before.len() && (#[trigger] before[h]).same(&after[j]);
            R::lemma_same(&before[h], &after[j]);
            let i = choose|i: int| 0 <= i < before.len() && #[trigger] before[i].key() == k;
            if h < i {
                assert(before[h].key() != before[i].key());
            } else if i < h {
                assert(before[i].key() != before[h].key());
            }
            assert(result[k] == before[i]);
        }
    }
}


/// In a store that meets its invariant no two rows of a table share a key.
pub proof fn lemma_store_keys_unique(store: Store)
    requires
        store.wf(),
    ensures
        keys_unique(store.users@),
        keys_unique(store.articles@),
        keys_unique(store.tags@),
        keys_unique(store.tag_article@),
        keys_unique(store.follows.rows@),
        keys_unique(store.user_favorites_article.rows@),
{
    assert forall|i: int, j: int| 0 <= i < j < store.users@.len() implies (
    #[trigger] store.users@[i]).key() != (#[trigger] store.users@[j]).key() by {
        assert(store.users@[i].id != store.users@[j].id);
    }
    assert forall|i: int, j: int| 0 <= i < j < store.articles@.len() implies (
    #[trigger] store.articles@[i]).key() != (#[trigger] store.articles@[j]).key() by {
        assert(store.articles@[i].id != store.articles@[j].id);
    }
    assert forall|i: int, j: int| 0 <= i < j < store.tags@.len() implies (
    #[trigger] store.tags@[i]).key() != (#[trigger] store.tags@[j]).key() by {
        assert(store.tags@[i].tag@ != store.tags@[j].tag@);
    }
    assert forall|i: int, j: int| 0 <= i < j < store.tag_article@.len() implies (
    #[trigger] store.tag_article@[i]).key() != (#[trigger] store.tag_article@[j]).key() by {
        assert(!(store.tag_article@[i].tag@ == store.tag_article@[j].tag@
            && store.tag_article@[i].article_id == store.tag_article@[j].article_id));
    }
    let follows = store.follows.rows@;
    assert forall|i: int, j: int| 0 <= i < j < follows.len() implies (#[trigger] follows[i]).key()
        != (#[trigger] follows[j]).key() by {
        assert(!(follows[i].source == follows[j].source && follows[i].target
            == follows[j].target));
    }
    let favorites = store.user_favorites_article.rows@;
    assert forall|i: int, j: int| 0 <= i < j < favorites.len() implies (
    #[trigger] favorites[i]).key() != (#[trigger] favorites[j]).key() by {
        assert(!(favorites[i].source == favorites[j].source && favorites[i].target
            == favorites[j].target));
    }
}

/// Applying the changes between two stores to the first gives the second:
/// each of the six tables holds the same keys with the same values, and
/// each sequence stands at the same value.
pub proof fn law_changes_rebuild_the_store(before: Store, after: Store, c: Changes)
    requires
        before.wf(),
        after.wf(),
        is_store_diff(before, after, c),
    ensures
        rebuilds_store(before, after, c),
{
    lemma_store_keys_unique(before);
    lemma_store_keys_unique(after);
    law_changes_rebuild_the_table(before.users@, after.users@, c.users);
    law_changes_rebuild_the_table(before.articles@, after.articles@, c.articles);
    law_changes_rebuild_the_table(before.tags@, after.tags@, c.tags);
    law_changes_rebuild_the_table(before.tag_article@, after.tag_article@, c.tag_article);
    law_changes_rebuild_the_table(before.follows.rows@, after.follows.rows@, c.follows);
    law_changes_rebuild_the_table(
        before.user_favorites_article.rows@,
        after.user_favorites_article.rows@,
        c.user_favorites_article,
    );
}

} // verus!
