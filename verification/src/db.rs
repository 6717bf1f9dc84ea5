//! The relational store: six tables and the rules that hold between them.

use vstd::prelude::*;
use crate::article::db::{ArticleEntity, TagArticleEntity, TagEntity};
use crate::edges::{Edge, EdgeTable};
use crate::errors::DbError;
use crate::user::db::UserEntity;

verus! {

/// The result of a store operation.
pub type QueryResult<T> = Result<T, DbError>;

/// The six relations of the service and the two id sequences.
///
/// `articles` is kept in ascending order of creation time; rows created at
/// the same instant stay in the order in which they were inserted.
#[derive(Debug)]
pub struct Store {
    pub users: Vec<UserEntity>,
    pub articles: Vec<ArticleEntity>,
    pub tags: Vec<TagEntity>,
    pub tag_article: Vec<TagArticleEntity>,
    /// Follow edges, from the follower to the followed account.
    pub follows: EdgeTable,
    /// Favorite edges, from the account to the article.
    pub user_favorites_article: EdgeTable,
    /// The id the next account receives.
    pub next_user_id: i32,
    /// The id the next article receives.
    pub next_article_id: i32,
}

/// Some account has the id.
pub open spec fn has_user(users: Seq<UserEntity>, id: int) -> bool {
    exists|i: int| 0 <= i < users.len() && #[trigger] users[i].id == id
}

/// Some account has the username.
pub open spec fn has_username(users: Seq<UserEntity>, name: Seq<char>) -> bool {
    exists|i: int| 0 <= i < users.len() && #[trigger] users[i].username@ == name
}

/// Some account has the email.
pub open spec fn has_email(users: Seq<UserEntity>, email: Seq<char>) -> bool {
    exists|i: int| 0 <= i < users.len() && #[trigger] users[i].email@ == email
}

/// Some article has the id.
pub open spec fn has_article(articles: Seq<ArticleEntity>, id: int) -> bool {
    exists|i: int| 0 <= i < articles.len() && #[trigger] articles[i].id == id
}

/// Some article has the slug.
pub open spec fn has_slug(articles: Seq<ArticleEntity>, slug: Seq<char>) -> bool {
    exists|i: int| 0 <= i < articles.len() && #[trigger] articles[i].slug@ == slug
}

/// The tag is in the tag table.
pub open spec fn has_tag(tags: Seq<TagEntity>, tag: Seq<char>) -> bool {
    exists|i: int| 0 <= i < tags.len() && #[trigger] tags[i].tag@ == tag
}

/// The tag is associated with the article.
pub open spec fn has_tag_article(rows: Seq<TagArticleEntity>, tag: Seq<char>, id: int) -> bool {
    exists|i: int|
        0 <= i < rows.len() && (#[trigger] rows[i]).tag@ == tag && rows[i].article_id == id
}

/// Account ids, emails and usernames are unique, and every id was issued by
/// the sequence.
pub open spec fn users_wf(users: Seq<UserEntity>, next: int) -> bool {
    &&& forall|i: int| 0 <= i < users.len() ==> (#[trigger] users[i]).id < next
    &&& forall|i: int, j: int|
        0 <= i < j < users.len() ==> (#[trigger] users[i]).id != (#[trigger] users[j]).id
    &&& forall|i: int, j: int|
        0 <= i < j < users.len() ==> (#[trigger] users[i]).email@ != (#[trigger] users[j]).email@
    &&& forall|i: int, j: int|
        0 <= i < j < users.len() ==> (#[trigger] users[i]).username@ != (
        #[trigger] users[j]).username@
}

/// Article ids and slugs are unique, every id was issued by the sequence,
/// and the rows stand in ascending order of creation time.
pub open spec fn articles_wf(articles: Seq<ArticleEntity>, next: int) -> bool {
    &&& forall|i: int| 0 <= i < articles.len() ==> (#[trigger] articles[i]).id < next
    &&& forall|i: int, j: int|
        0 <= i < j < articles.len() ==> (#[trigger] articles[i]).id != (#[trigger] articles[j]).id
    &&& forall|i: int, j: int|
        0 <= i < j < articles.len() ==> (#[trigger] articles[i]).slug@ != (
        #[trigger] articles[j]).slug@
    &&& forall|i: int, j: int|
        0 <= i < j < articles.len() ==> (#[trigger] articles[i]).created_at <= (
        #[trigger] articles[j]).created_at
}

/// Every article's author is an account.
pub open spec fn authors_exist(articles: Seq<ArticleEntity>, users: Seq<UserEntity>) -> bool {
    forall|i: int| 0 <= i < articles.len() ==> has_user(users, (#[trigger] articles[i]).author_id as int)
}

/// Tag values are unique.
pub open spec fn tags_wf(tags: Seq<TagEntity>) -> bool {
    forall|i: int, j: int|
        0 <= i < j < tags.len() ==> (#[trigger] tags[i]).tag@ != (#[trigger] tags[j]).tag@
}

/// No association occurs twice, and each joins a tag of the tag table with
/// an existing article.
pub open spec fn tag_article_wf(
    rows: Seq<TagArticleEntity>,
    tags: Seq<TagEntity>,
    articles: Seq<ArticleEntity>,
) -> bool {
    &&& forall|i: int, j: int|
        0 <= i < j < rows.len() ==> !((#[trigger] rows[i]).tag@ == (#[trigger] rows[j]).tag@
            && rows[i].article_id == rows[j].article_id)
    &&& forall|i: int| 0 <= i < rows.len() ==> has_tag(tags, (#[trigger] rows[i]).tag@)
    &&& forall|i: int|
        0 <= i < rows.len() ==> has_article(articles, (#[trigger] rows[i]).article_id as int)
}

/// Both ends of every follow edge are accounts.
pub open spec fn follows_reference(rows: Seq<Edge>, users: Seq<UserEntity>) -> bool {
    forall|i: int|
        0 <= i < rows.len() ==> has_user(users, (#[trigger] rows[i]).source as int) && has_user(
            users,
            rows[i].target as int,
        )
}

/// Every favorite edge joins an account with an existing article.
pub open spec fn favorites_reference(
    rows: Seq<Edge>,
    users: Seq<UserEntity>,
    articles: Seq<ArticleEntity>,
) -> bool {
    forall|i: int|
        0 <= i < rows.len() ==> has_user(users, (#[trigger] rows[i]).source as int)
            && has_article(articles, rows[i].target as int)
}

/// Whether the rows hold the tag.
pub fn tags_contain(tags: &Vec<TagEntity>, tag: &String) -> (r: bool)
    ensures
        r == has_tag(tags@, tag@),
{
    let mut i: usize = 0;
    while i < tags.len()
        invariant
            i <= tags.len(),
            forall|j: int| 0 <= j < i ==> (#[trigger] tags@[j]).tag@ != tag@,
        decreases tags.len() - i,
    {
        if tags[i].tag == *tag {
            return true;
        }
        i += 1;
    }
    false
}

impl Store {
    /// The store's invariant.
    pub open spec fn wf(&self) -> bool {
        &&& users_wf(self.users@, self.next_user_id as int)
        &&& articles_wf(self.articles@, self.next_article_id as int)
        &&& authors_exist(self.articles@, self.users@)
        &&& tags_wf(self.tags@)
        &&& tag_article_wf(self.tag_article@, self.tags@, self.articles@)
        &&& self.follows.wf()
        &&& follows_reference(self.follows.rows@, self.users@)
        &&& self.user_favorites_article.wf()
        &&& favorites_reference(self.user_favorites_article.rows@, self.users@, self.articles@)
    }

    /// The account with the username. Meaningful where one exists.
    pub open spec fn user_named(&self, name: Seq<char>) -> UserEntity {
        self.users@[choose|i: int| 0 <= i < self.users@.len() && #[trigger] self.users@[i].username@ == name]
    }

    /// The account with the id. Meaningful where one exists.
    pub open spec fn user_with_id(&self, id: int) -> UserEntity {
        self.users@[choose|i: int| 0 <= i < self.users@.len() && #[trigger] self.users@[i].id == id]
    }

    /// The article with the slug. Meaningful where one exists.
    pub open spec fn article_with_slug(&self, slug: Seq<char>) -> ArticleEntity {
        self.articles@[choose|i: int| 0 <= i < self.articles@.len() && #[trigger] self.articles@[i].slug@ == slug]
    }

    /// The article with the id. Meaningful where one exists.
    pub open spec fn article_with_id(&self, id: int) -> ArticleEntity {
        self.articles@[choose|i: int| 0 <= i < self.articles@.len() && #[trigger] self.articles@[i].id == id]
    }

    /// The set of all tags.
    pub open spec fn tag_set(&self) -> Set<Seq<char>> {
        Set::new(|t: Seq<char>| has_tag(self.tags@, t))
    }

    /// The set of tags associated with an article.
    pub open spec fn tags_of(&self, article_id: int) -> Set<Seq<char>> {
        Set::new(|t: Seq<char>| has_tag_article(self.tag_article@, t, article_id))
    }

    /// Whether `follower` actively follows `followed`.
    pub open spec fn is_following(&self, follower: int, followed: int) -> bool {
        self.follows.is_active(follower, followed)
    }

    /// Whether `user` has actively favorited `article`.
    pub open spec fn is_favorited(&self, user: int, article: int) -> bool {
        self.user_favorites_article.is_active(user, article)
    }

    /// An empty store whose sequences start at 1.
    pub fn new() -> (r: Store)
        ensures
            r.wf(),
            r.users@.len() == 0,
            r.articles@.len() == 0,
            r.tags@.len() == 0,
            r.tag_article@.len() == 0,
            r.follows@ == Map::<(int, int), bool>::empty(),
            r.user_favorites_article@ == Map::<(int, int), bool>::empty(),
            r.next_user_id == 1,
            r.next_article_id == 1,
    {
        Store {
            users: Vec::new(),
            articles: Vec::new(),
            tags: Vec::new(),
            tag_article: Vec::new(),
            follows: EdgeTable::new(),
            user_favorites_article: EdgeTable::new(),
            next_user_id: 1,
            next_article_id: 1,
        }
    }

    /// Decides whether the account table meets its part of the invariant.
    fn users_consistent(&self) -> (r: bool)
        ensures
            r == users_wf(self.users@, self.next_user_id as int),
    {
        let mut j: usize = 0;
        while j < self.users.len()
            invariant
                j <= self.users@.len(),
                users_wf(self.users@.take(j as int), self.next_user_id as int),
            decreases self.users@.len() - j,
        {
            if self.users[j].id >= self.next_user_id {
                return false;
            }
            let mut i: usize = 0;
            while i < j
                invariant
                    i <= j < self.users@.len(),
                    forall|a: int|
                        0 <= a < i ==> (#[trigger] self.users@[a]).id != self.users@[j as int].id
                            && self.users@[a].email@ != self.users@[j as int].email@
                            && self.users@[a].username@ != self.users@[j as int].username@,
                decreases j - i,
            {
                if self.users[i].id == self.users[j].id || self.users[i].email
                    == self.users[j].email || self.users[i].username == self.users[j].username {
                    return false;
                }
                i += 1;
            }
            proof {
                let head = self.users@.take(j as int);
                let next = self.users@.take(j + 1);
                assert forall|a: int| 0 <= a < next.len() implies (#[trigger] next[a]).id
                    < self.next_user_id by {
                    if a < j {
                        assert(head[a] == next[a]);
                    }
                }
                assert forall|a: int, b: int| 0 <= a < b < next.len() implies (
                #[trigger] next[a]).id != (#[trigger] next[b]).id && next[a].email@
                    != next[b].email@ && next[a].username@ != next[b].username@ by {
                    if b < j {
                        assert(head[a] == next[a] && head[b] == next[b]);
                    } else {
                        assert(next[a] == self.users@[a]);
                    }
                }
            }
            j += 1;
        }
        proof {
            assert(self.users@.take(j as int) =~= self.users@);
        }
        true
    }

    /// Decides whether the article table meets its part of the invariant.
    fn articles_consistent(&self) -> (r: bool)
        ensures
            r == (articles_wf(self.articles@, self.next_article_id as int) && authors_exist(
                self.articles@,
                self.users@,
            )),
    {
        let mut j: usize = 0;
        while j < self.articles.len()
            invariant
                j <= self.articles@.len(),
                articles_wf(self.articles@.take(j as int), self.next_article_id as int),
                authors_exist(self.articles@.take(j as int), self.users@),
            decreases self.articles@.len() - j,
        {
            if self.articles[j].id >= self.next_article_id {
                return false;
            }
            if self.find_user_by_id(self.articles[j].author_id).is_none() {
                return false;
            }
            let mut i: usize = 0;
            while i < j
                invariant
                    i <= j < self.articles@.len(),
                    forall|a: int|
                        0 <= a < i ==> (#[trigger] self.articles@[a]).id != self.articles@[j as int].id
                            && self.articles@[a].slug@ != self.articles@[j as int].slug@
                            && self.articles@[a].created_at <= self.articles@[j as int].created_at,
                decreases j - i,
            {
                if self.articles[i].id == self.articles[j].id || self.articles[i].slug
                    == self.articles[j].slug || self.articles[i].created_at
                    > self.articles[j].created_at {
                    return false;
                }
                i += 1;
            }
            proof {
                let head = self.articles@.take(j as int);
                let next = self.articles@.take(j + 1);
                assert forall|a: int| 0 <= a < next.len() implies (#[trigger] next[a]).id
                    < self.next_article_id && has_user(self.users@, next[a].author_id as int) by {
                    if a < j {
                        assert(head[a] == next[a]);
                    }
                }
                assert forall|a: int, b: int| 0 <= a < b < next.len() implies (
                #[trigger] next[a]).id != (#[trigger] next[b]).id && next[a].slug@ != next[b].slug@
                    && next[a].created_at <= next[b].created_at by {
                    if b < j {
                        assert(head[a] == next[a] && head[b] == next[b]);
                    } else {
                        assert(next[a] == self.articles@[a]);
                    }
                }
            }
            j += 1;
        }
        proof {
            assert(self.articles@.take(j as int) =~= self.articles@);
        }
        true
    }

    /// Decides whether the tag table meets its part of the invariant.
    fn tags_consistent(&self) -> (r: bool)
        ensures
            r == tags_wf(self.tags@),
    {
        let mut j: usize = 0;
        while j < self.tags.len()
            invariant
                j <= self.tags@.len(),
                forall|a: int, b: int|
                    0 <= a < b < j ==> (#[trigger] self.tags@[a]).tag@ != (
                    #[trigger] self.tags@[b]).tag@,
            decreases self.tags@.len() - j,
        {
            let mut i: usize = 0;
            while i < j
                invariant
                    i <= j < self.tags@.len(),
                    forall|a: int|
                        0 <= a < i ==> (#[trigger] self.tags@[a]).tag@ != self.tags@[j as int].tag@,
                decreases j - i,
            {
                if self.tags[i].tag == self.tags[j].tag {
                    return false;
                }
                i += 1;
            }
            j += 1;
        }
        true
    }

    /// Decides whether the association table meets its part of the
    /// invariant.
    fn tag_article_consistent(&self) -> (r: bool)
        ensures
            r == tag_article_wf(self.tag_article@, self.tags@, self.articles@),
    {
        let mut j: usize = 0;
        while j < self.tag_article.len()
            invariant
                j <= self.tag_article@.len(),
                tag_article_wf(self.tag_article@.take(j as int), self.tags@, self.articles@),
            decreases self.tag_article@.len() - j,
        {
            if !self.contains_tag(&self.tag_article[j].tag) {
                return false;
            }
            if self.find_article_by_id(self.tag_article[j].article_id).is_none() {
                return false;
            }
            let mut i: usize = 0;
            while i < j
                invariant
                    i <= j < self.tag_article@.len(),
                    forall|a: int|
                        0 <= a < i ==> !((#[trigger] self.tag_article@[a]).tag@
                            == self.tag_article@[j as int].tag@ && self.tag_article@[a].article_id
                            == self.tag_article@[j as int].article_id),
                decreases j - i,
            {
                if self.tag_article[i].article_id == self.tag_article[j].article_id
                    && self.tag_article[i].tag == self.tag_article[j].tag {
                    return false;
                }
                i += 1;
            }
            proof {
                let head = self.tag_article@.take(j as int);
                let next = self.tag_article@.take(j + 1);
                assert forall|a: int| 0 <= a < next.len() implies has_tag(
                    self.tags@,
                    (#[trigger] next[a]).tag@,
                ) && has_article(self.articles@, next[a].article_id as int) by {
                    if a < j {
                        assert(head[a] == next[a]);
                    }
                }
                assert forall|a: int, b: int| 0 <= a < b < next.len() implies !((
                #[trigger] next[a]).tag@ == (#[trigger] next[b]).tag@ && next[a].article_id
                    == next[b].article_id) by {
                    if b < j {
                        assert(head[a] == next[a] && head[b] == next[b]);
                    } else {
                        assert(next[a] == self.tag_article@[a]);
                    }
                }
            }
            j += 1;
        }
        proof {
            assert(self.tag_article@.take(j as int) =~= self.tag_article@);
        }
        true
    }

    /// Decides whether both ends of every follow edge are accounts.
    fn follows_consistent(&self) -> (r: bool)
        ensures
            r == follows_reference(self.follows.rows@, self.users@),
    {
        let mut j: usize = 0;
        while j < self.follows.rows.len()
            invariant
                j <= self.follows.rows@.len(),
                forall|a: int|
                    0 <= a < j ==> has_user(
                        self.users@,
                        (#[trigger] self.follows.rows@[a]).source as int,
                    ) && has_user(self.users@, self.follows.rows@[a].target as int),
            decreases self.follows.rows@.len() - j,
        {
            if self.find_user_by_id(self.follows.rows[j].source).is_none() {
                return false;
            }
            if self.find_user_by_id(self.follows.rows[j].target).is_none() {
                return false;
            }
            j += 1;
        }
        true
    }

    /// Decides whether every favorite edge joins an account with an
    /// article.
    fn favorites_consistent(&self) -> (r: bool)
        ensures
            r == favorites_reference(
                self.user_favorites_article.rows@,
                self.users@,
                self.articles@,
            ),
    {
        let mut j: usize = 0;
        while j < self.user_favorites_article.rows.len()
            invariant
                j <= self.user_favorites_article.rows@.len(),
                forall|a: int|
                    0 <= a < j ==> has_user(
                        self.users@,
                        (#[trigger] self.user_favorites_article.rows@[a]).source as int,
                    ) && has_article(
                        self.articles@,
                        self.user_favorites_article.rows@[a].target as int,
                    ),
            decreases self.user_favorites_article.rows@.len() - j,
        {
            if self.find_user_by_id(self.user_favorites_article.rows[j].source).is_none() {
                return false;
            }
            if self.find_article_by_id(self.user_favorites_article.rows[j].target).is_none() {
                return false;
            }
            j += 1;
        }
        true
    }

    /// Decides whether the store meets its invariant. A store that was put
    /// together from rows that came from elsewhere is to be tested with
    /// this before any operation is run on it.
    pub fn is_consistent(&self) -> (r: bool)
        ensures
            r == self.wf(),
    {
        self.users_consistent() && self.articles_consistent() && self.tags_consistent()
            && self.tag_article_consistent() && self.follows.is_consistent()
            && self.follows_consistent() && self.user_favorites_article.is_consistent()
            && self.favorites_consistent()
    }

    /// The position of the account with the id.
    pub fn find_user_by_id(&self, id: i32) -> (r: Option<usize>)
        ensures
            match r {
                Some(i) => i < self.users@.len() && self.users@[i as int].id == id,
                None => !has_user(self.users@, id as int),
            },
    {
        let mut i: usize = 0;
        while i < self.users.len()
            invariant
                i <= self.users.len(),
                forall|j: int| 0 <= j < i ==> (#[trigger] self.users@[j]).id != id,
            decreases self.users.len() - i,
        {
            if self.users[i].id == id {
                return Some(i);
            }
            i += 1;
        }
        None
    }

    /// The position of the account with the username.
    pub fn find_user_by_username(&self, name: &String) -> (r: Option<usize>)
        ensures
            match r {
                Some(i) => i < self.users@.len() && self.users@[i as int].username@ == name@,
                None => !has_username(self.users@, name@),
            },
    {
        let mut i: usize = 0;
        while i < self.users.len()
            invariant
                i <= self.users.len(),
                forall|j: int| 0 <= j < i ==> (#[trigger] self.users@[j]).username@ != name@,
            decreases self.users.len() - i,
        {
            if self.users[i].username == *name {
                return Some(i);
            }
            i += 1;
        }
        None
    }

    /// The position of the account with the email.
    pub fn find_user_by_email(&self, email: &String) -> (r: Option<usize>)
        ensures
            match r {
                Some(i) => i < self.users@.len() && self.users@[i as int].email@ == email@,
                None => !has_email(self.users@, email@),
            },
    {
        let mut i: usize = 0;
        while i < self.users.len()
            invariant
                i <= self.users.len(),
                forall|j: int| 0 <= j < i ==> (#[trigger] self.users@[j]).email@ != email@,
            decreases self.users.len() - i,
        {
            if self.users[i].email == *email {
                return Some(i);
            }
            i += 1;
        }
        None
    }

    /// The position of the article with the id.
    pub fn find_article_by_id(&self, id: i32) -> (r: Option<usize>)
        ensures
            match r {
                Some(i) => i < self.articles@.len() && self.articles@[i as int].id == id,
                None => !has_article(self.articles@, id as int),
            },
    {
        let mut i: usize = 0;
        while i < self.articles.len()
            invariant
                i <= self.articles.len(),
                forall|j: int| 0 <= j < i ==> (#[trigger] self.articles@[j]).id != id,
            decreases self.articles.len() - i,
        {
            if self.articles[i].id == id {
                return Some(i);
            }
            i += 1;
        }
        None
    }

    /// The position of the article with the slug.
    pub fn find_article_by_slug(&self, slug: &String) -> (r: Option<usize>)
        ensures
            match r {
                Some(i) => i < self.articles@.len() && self.articles@[i as int].slug@ == slug@,
                None => !has_slug(self.articles@, slug@),
            },
    {
        let mut i: usize = 0;
        while i < self.articles.len()
            invariant
                i <= self.articles.len(),
                forall|j: int| 0 <= j < i ==> (#[trigger] self.articles@[j]).slug@ != slug@,
            decreases self.articles.len() - i,
        {
            if self.articles[i].slug == *slug {
                return Some(i);
            }
            i += 1;
        }
        None
    }

    /// Whether the tag table holds the tag.
    pub fn contains_tag(&self, tag: &String) -> (r: bool)
        ensures
            r == has_tag(self.tags@, tag@),
    {
        tags_contain(&self.tags, tag)
    }

    /// Whether the tag is associated with the article.
    pub fn contains_tag_article(&self, tag: &String, article_id: i32) -> (r: bool)
        ensures
            r == has_tag_article(self.tag_article@, tag@, article_id as int),
    {
        let mut i: usize = 0;
        while i < self.tag_article.len()
            invariant
                i <= self.tag_article.len(),
                forall|j: int|
                    0 <= j < i ==> !((#[trigger] self.tag_article@[j]).tag@ == tag@
                        && self.tag_article@[j].article_id == article_id),
            decreases self.tag_article.len() - i,
        {
            if self.tag_article[i].article_id == article_id && self.tag_article[i].tag == *tag {
                return true;
            }
            i += 1;
        }
        false
    }
}

/// With unique usernames, the account at a position is the one its username
/// names.
pub proof fn lemma_user_named(store: &Store, i: int)
    requires
        store.wf(),
        0 <= i < store.users@.len(),
    ensures
        store.user_named(store.users@[i].username@) == store.users@[i],
{
    let name = store.users@[i].username@;
    let j = choose|j: int| 0 <= j < store.users@.len() && #[trigger] store.users@[j].username@ == name;
    assert(store.users@[i].username@ == name);
    if j < i {
        assert(store.users@[j].username@ != store.users@[i].username@);
    } else if i < j {
        assert(store.users@[i].username@ != store.users@[j].username@);
    }
}

/// With unique ids, the account at a position is the one its id names.
pub proof fn lemma_user_with_id(store: &Store, i: int)
    requires
        store.wf(),
        0 <= i < store.users@.len(),
    ensures
        store.user_with_id(store.users@[i].id as int) == store.users@[i],
{
    let id = store.users@[i].id as int;
    let j = choose|j: int| 0 <= j < store.users@.len() && #[trigger] store.users@[j].id == id;
    assert(store.users@[i].id == id);
    if j < i {
        assert(store.users@[j].id != store.users@[i].id);
    } else if i < j {
        assert(store.users@[i].id != store.users@[j].id);
    }
}

/// The account that an id names is the account that its own username
/// names.
pub proof fn lemma_user_with_id_named(store: &Store, id: int)
    requires
        store.wf(),
        has_user(store.users@, id),
    ensures
        store.user_with_id(id).id == id,
        has_username(store.users@, store.user_with_id(id).username@),
        store.user_named(store.user_with_id(id).username@) == store.user_with_id(id),
{
    let j = choose|j: int| 0 <= j < store.users@.len() && #[trigger] store.users@[j].id == id;
    lemma_user_named(store, j);
    assert(store.users@[j].username@ == store.user_with_id(id).username@);
}

/// The article that a slug names has that slug and is an article.
pub proof fn lemma_article_with_slug_has_id(store: &Store, slug: Seq<char>)
    requires
        store.wf(),
        has_slug(store.articles@, slug),
    ensures
        store.article_with_slug(slug).slug@ == slug,
        has_article(store.articles@, store.article_with_slug(slug).id as int),
        has_user(store.users@, store.article_with_slug(slug).author_id as int),
        store.article_with_id(store.article_with_slug(slug).id as int) == store.article_with_slug(
            slug,
        ),
{
    let j = choose|j: int|
        0 <= j < store.articles@.len() && #[trigger] store.articles@[j].slug@ == slug;
    lemma_article_with_id(store, j);
    assert(store.articles@[j].id == store.article_with_slug(slug).id);
    assert(has_user(store.users@, store.articles@[j].author_id as int));
}

/// With unique slugs, the article at a position is the one its slug names.
pub proof fn lemma_article_with_slug(store: &Store, i: int)
    requires
        store.wf(),
        0 <= i < store.articles@.len(),
    ensures
        store.article_with_slug(store.articles@[i].slug@) == store.articles@[i],
{
    let slug = store.articles@[i].slug@;
    let j = choose|j: int| 0 <= j < store.articles@.len() && #[trigger] store.articles@[j].slug@ == slug;
    assert(store.articles@[i].slug@ == slug);
    if j < i {
        assert(store.articles@[j].slug@ != store.articles@[i].slug@);
    } else if i < j {
        assert(store.articles@[i].slug@ != store.articles@[j].slug@);
    }
}

/// With unique ids, the article at a position is the one its id names.
pub proof fn lemma_article_with_id(store: &Store, i: int)
    requires
        store.wf(),
        0 <= i < store.articles@.len(),
    ensures
        store.article_with_id(store.articles@[i].id as int) == store.articles@[i],
{
    let id = store.articles@[i].id as int;
    let j = choose|j: int| 0 <= j < store.articles@.len() && #[trigger] store.articles@[j].id == id;
    assert(store.articles@[i].id == id);
    if j < i {
        assert(store.articles@[j].id != store.articles@[i].id);
    } else if i < j {
        assert(store.articles@[i].id != store.articles@[j].id);
    }
}

} // verus!
