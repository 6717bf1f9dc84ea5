//! What a caller sees of an article: its fields, its author's profile,
//! whether the caller has favorited it, how many have, and its tags.

use vstd::prelude::*;
use crate::article::db::{
    favorite_materialized, favorites_count, get_user_favorites_article, tag_list, tag_values,
    tags_listed, ArticleEntity,
};
use crate::db::{has_article, has_user, lemma_user_with_id_named, Store};
use crate::errors::{fails_with, ErrorKind, FieldError};
use crate::schema::Context;
use crate::user::auth::{identity_at, names_no_account, token_text, viewer};
use crate::user::db::{follow_materialized, get_user_by_id};
use crate::user::model::Profile;
use crate::user::resolvers::{profile_for, profile_of};

verus! {

/// An article as a caller sees it: the row, the profile of its author,
/// whether the caller has favorited it, how many have, and its tags.
/// Timestamps are microseconds since the Unix epoch, UTC.
#[derive(Debug)]
pub struct Article {
    pub slug: String,
    pub title: String,
    pub description: Option<String>,
    pub body: String,
    pub created_at: i64,
    pub updated_at: i64,
    pub author: Profile,
    pub favorited: bool,
    pub favorites_count: i32,
    pub tag_list: Vec<String>,
}

/// The article is the row as the viewer sees it in the store: the author's
/// profile says whether the viewer follows the author, and the count and
/// the tags are those of the store.
pub open spec fn is_assembled(
    article: Article,
    store: Store,
    entity: ArticleEntity,
    viewer: Option<i32>,
) -> bool {
    &&& article.slug == entity.slug
    &&& article.title == entity.title
    &&& article.description == entity.description
    &&& article.body == entity.body
    &&& article.created_at == entity.created_at
    &&& article.updated_at == entity.updated_at
    &&& article.author == profile_of(
        store.user_with_id(entity.author_id as int),
        viewer is Some && store.is_following(viewer->0 as int, entity.author_id as int),
    )
    &&& article.favorited == (viewer is Some && store.is_favorited(
        viewer->0 as int,
        entity.id as int,
    ))
    &&& article.favorites_count == store.user_favorites_article.spec_count_active_into(
        entity.id as int,
    )
    &&& article.tag_list@ == tags_listed(store.tag_article@, entity.id as int)
}

/// The store `post` is the store `pre` after the viewer has looked at the
/// article: nothing has changed but that the follow edge from the viewer to
/// the author and the favorite edge from the viewer to the article exist,
/// inactive where they were absent. Without a viewer nothing has changed.
pub open spec fn looked_at(
    pre: Store,
    post: Store,
    viewer: Option<i32>,
    author: int,
    article: int,
) -> bool {
    match viewer {
        None => post == pre,
        Some(v) => {
            &&& post == (Store {
                follows: post.follows,
                user_favorites_article: post.user_favorites_article,
                ..pre
            })
            &&& post.follows@ == if pre.follows@.contains_key((v as int, author)) {
                pre.follows@
            } else {
                pre.follows@.insert((v as int, author), false)
            }
            &&& post.user_favorites_article@ == if pre.user_favorites_article@.contains_key(
                (v as int, article),
            ) {
                pre.user_favorites_article@
            } else {
                pre.user_favorites_article@.insert((v as int, article), false)
            }
        },
    }
}

impl ArticleEntity {
    /// The slug: the identifier derived from the title at creation.
    pub fn slug(&self) -> (r: &str)
        ensures
            r@ == self.slug@,
    {
        self.slug.as_str()
    }

    /// The title.
    pub fn title(&self) -> (r: &str)
        ensures
            r@ == self.title@,
    {
        self.title.as_str()
    }

    /// The body.
    pub fn body(&self) -> (r: &str)
        ensures
            r@ == self.body@,
    {
        self.body.as_str()
    }

    /// The description, where the article has one.
    pub fn description(&self) -> (r: &Option<String>)
        ensures
            *r == self.description,
    {
        &self.description
    }

    /// When the article was created, in microseconds since the Unix epoch.
    pub fn created_at(&self) -> (r: i64)
        ensures
            r == self.created_at,
    {
        self.created_at
    }

    /// When the article was last changed, in microseconds since the Unix
    /// epoch.
    pub fn updated_at(&self) -> (r: i64)
        ensures
            r == self.updated_at,
    {
        self.updated_at
    }

    /// The profile of the article's author, as the viewer sees it. Fails
    /// with `NotFound` where the author or the viewer is no account; the
    /// store is then unchanged.
    pub fn author_as(&self, context: &mut Context, viewer: Option<i32>) -> (r: Result<
        Profile,
        FieldError,
    >)
        requires
            old(context).store.wf(),
        ensures
            final(context).store.wf(),
            final(context).token == old(context).token,
            author_outcome(old(context).store, final(context).store, *self, viewer, r),
    {
        let author = match get_user_by_id(&context.store, &self.author_id) {
            Ok(author) => author,
            Err(e) => {
                return Err(FieldError::from_db(e));
            },
        };
        proof {
            lemma_user_with_id_named(&context.store, self.author_id as int);
        }
        profile_for(context, viewer, author)
    }

    /// The profile of the article's author, as the caller sees it; a
    /// caller who sent no token follows no one. Fails with
    /// `Unauthenticated` where a token was sent and is refused, and with
    /// `NotFound` where the author or the caller is no account; the store
    /// is then unchanged.
    pub fn author(&self, context: &mut Context) -> (r: Result<Profile, FieldError>)
        requires
            old(context).store.wf(),
        ensures
            final(context).store.wf(),
            final(context).token == old(context).token,
            r is Err ==> final(context).store == old(context).store,
            old(context).token is Some && names_no_account(token_text(old(context).token))
                ==> fails_with(r, ErrorKind::Unauthenticated),
            r matches Err(e) ==> e.kind == ErrorKind::NotFound || e.kind
                == ErrorKind::Unauthenticated,
            r matches Ok(profile) ==> has_user(old(context).store.users@, self.author_id as int)
                && profile == profile_of(
                old(context).store.user_with_id(self.author_id as int),
                profile.following,
            ),
            old(context).token is None ==> final(context).store == old(context).store && if has_user(
                old(context).store.users@,
                self.author_id as int,
            ) {
                r == Ok::<Profile, FieldError>(
                    profile_of(old(context).store.user_with_id(self.author_id as int), false),
                )
            } else {
                fails_with(r, ErrorKind::NotFound)
            },
            exists|now: i64|
                match old(context).token {
                    Some(_) => match #[trigger] identity_at(token_text(old(context).token), now) {
                        Some(caller) => author_outcome(old(context).store, final(context).store, *self, Some(caller), r),
                        None => fails_with(r, ErrorKind::Unauthenticated) && final(
                            context
                        ).store == old(context).store,
                    },
                    None => author_outcome(old(context).store, final(context).store, *self, None, r),
                },
    {
        let who = match viewer(&context.token) {
            Ok(who) => who,
            Err(e) => {
                return Err(e);
            },
        };
        self.author_as(context, who)
    }

    /// Whether the viewer has actively favorited the article; without a
    /// viewer, no. With one, the favorite edge is read, and created
    /// inactive where it does not exist yet. Fails with `NotFound` where
    /// the viewer or the article does not exist; the store is then
    /// unchanged.
    pub fn favorited_as(&self, context: &mut Context, viewer: Option<i32>) -> (r: Result<
        bool,
        FieldError,
    >)
        requires
            old(context).store.wf(),
        ensures
            final(context).store.wf(),
            final(context).token == old(context).token,
            favorited_outcome(old(context).store, final(context).store, *self, viewer, r),
    {
        match viewer {
            Some(v) => match get_user_favorites_article(&mut context.store, v, self.id) {
                Ok(favorited) => Ok(favorited),
                Err(e) => Err(FieldError::from_db(e)),
            },
            None => Ok(false),
        }
    }

    /// Whether the caller has actively favorited the article; a caller who
    /// sent no token has not. Fails with `Unauthenticated` where a token
    /// was sent and is refused, and with `NotFound` where the caller or
    /// the article does not exist; the store is then unchanged.
    pub fn favorited(&self, context: &mut Context) -> (r: Result<bool, FieldError>)
        requires
            old(context).store.wf(),
        ensures
            final(context).store.wf(),
            final(context).token == old(context).token,
            r is Err ==> final(context).store == old(context).store,
            old(context).token is Some && names_no_account(token_text(old(context).token))
                ==> fails_with(r, ErrorKind::Unauthenticated),
            r matches Err(e) ==> e.kind == ErrorKind::NotFound || e.kind
                == ErrorKind::Unauthenticated,
            old(context).token is None ==> r == Ok::<bool, FieldError>(false) && final(context).store == old(context).store,
            old(context).token is Some ==> (r matches Ok(favorited) ==> {
                &&& crate::user::auth::token_text(old(context).token) matches Some(text)
                &&& crate::user::auth::signed_claims(
                    text,
                    crate::user::auth::SIGNING_SECRET@,
                ) matches Some(claims)
                &&& crate::user::auth::parsed_id(claims.sub) matches Some(caller)
                &&& has_user(old(context).store.users@, caller as int)
                &&& has_article(old(context).store.articles@, self.id as int)
                &&& favorited == old(context).store.is_favorited(caller as int, self.id as int)
                &&& favorite_materialized(
                    old(context).store,
                    final(context).store,
                    caller as int,
                    self.id as int,
                )
            }),
            exists|now: i64|
                match old(context).token {
                    Some(_) => match #[trigger] identity_at(token_text(old(context).token), now) {
                        Some(caller) => favorited_outcome(old(context).store, final(context).store, *self, Some(caller), r),
                        None => fails_with(r, ErrorKind::Unauthenticated) && final(
                            context
                        ).store == old(context).store,
                    },
                    None => favorited_outcome(old(context).store, final(context).store, *self, None, r),
                },
    {
        let who = match viewer(&context.token) {
            Ok(who) => who,
            Err(e) => {
                return Err(e);
            },
        };
        self.favorited_as(context, who)
    }

    /// The number of accounts that have actively favorited the article.
    /// Fails with `Internal` where the number does not fit.
    pub fn favorites_count(&self, context: &Context) -> (r: Result<i32, FieldError>)
        ensures
            if context.store.user_favorites_article.spec_count_active_into(self.id as int)
                <= i32::MAX {
                r matches Ok(n) && n
                    == context.store.user_favorites_article.spec_count_active_into(self.id as int)
            } else {
                fails_with(r, ErrorKind::Internal)
            },
    {
        let n = favorites_count(&context.store, self.id);
        if n > 2147483647 {
            Err(ErrorKind::Internal.into_field_error())
        } else {
            Ok(n as i32)
        }
    }

    /// Assembles the article as the viewer sees it. With a viewer, the
    /// follow edge to the author and the favorite edge to the article are
    /// read, and created inactive where they do not exist yet. Fails with
    /// `NotFound` where the author is no account, or where there is a
    /// viewer and the viewer or the article does not exist, and with
    /// `Internal` where the count of favorites does not fit; the store is
    /// then unchanged.
    pub fn assemble_as(&self, context: &mut Context, viewer: Option<i32>) -> (r: Result<
        Article,
        FieldError,
    >)
        requires
            old(context).store.wf(),
        ensures
            final(context).store.wf(),
            final(context).token == old(context).token,
            assembly_outcome(old(context).store, final(context).store, *self, viewer, r),
    {
        if context.store.find_user_by_id(self.author_id).is_none() {
            return Err(ErrorKind::NotFound.into_field_error());
        }
        if let Some(v) = viewer {
            if context.store.find_user_by_id(v).is_none() || context.store.find_article_by_id(
                self.id,
            ).is_none() {
                return Err(ErrorKind::NotFound.into_field_error());
            }
        }
        let favorites_count = match self.favorites_count(context) {
            Ok(n) => n,
            Err(e) => {
                return Err(e);
            },
        };
        let tag_list = tag_list(&context.store, self.id);
        let author = match self.author_as(context, viewer) {
            Ok(author) => author,
            Err(e) => {
                return Err(e);
            },
        };
        let favorited = match self.favorited_as(context, viewer) {
            Ok(favorited) => favorited,
            Err(e) => {
                return Err(e);
            },
        };
        Ok(
            Article {
                slug: self.slug.clone(),
                title: self.title.clone(),
                description: crate::user::db::clone_opt(&self.description),
                body: self.body.clone(),
                created_at: self.created_at,
                updated_at: self.updated_at,
                author,
                favorited,
                favorites_count,
                tag_list,
            },
        )
    }

    /// Assembles the article as the caller sees it; a caller who sent no
    /// token follows no one and has favorited nothing. Fails with
    /// `Unauthenticated` where a token was sent and is refused, with
    /// `NotFound` where the author, the caller or the article does not
    /// exist, and with `Internal` where the count of favorites does not
    /// fit; the store is then unchanged.
    pub fn assemble(&self, context: &mut Context) -> (r: Result<Article, FieldError>)
        requires
            old(context).store.wf(),
        ensures
            final(context).store.wf(),
            final(context).token == old(context).token,
            r is Err ==> final(context).store == old(context).store,
            old(context).token is Some && names_no_account(token_text(old(context).token))
                ==> fails_with(r, ErrorKind::Unauthenticated),
            r matches Err(e) ==> e.kind == ErrorKind::NotFound || e.kind
                == ErrorKind::Unauthenticated || e.kind == ErrorKind::Internal,
            r matches Ok(article) ==> has_user(old(context).store.users@, self.author_id as int)
                && (is_assembled(article, old(context).store, *self, None) || exists|v: i32|
                is_assembled(article, old(context).store, *self, Some(v))),
            old(context).token is None ==> final(context).store == old(context).store && (
            r matches Ok(article) ==> is_assembled(article, old(context).store, *self, None)),
            exists|now: i64|
                match old(context).token {
                    Some(_) => match #[trigger] identity_at(token_text(old(context).token), now) {
                        Some(caller) => assembly_outcome(old(context).store, final(context).store, *self, Some(caller), r),
                        None => fails_with(r, ErrorKind::Unauthenticated) && final(
                            context
                        ).store == old(context).store,
                    },
                    None => assembly_outcome(old(context).store, final(context).store, *self, None, r),
                },
    {
        let who = match viewer(&context.token) {
            Ok(who) => who,
            Err(e) => {
                return Err(e);
            },
        };
        let r = self.assemble_as(context, who);
        proof {
            if let Ok(article) = &r {
                if let Some(v) = who {
                    assert(is_assembled(*article, old(context).store, *self, Some(v)));
                }
            }
        }
        r
    }

    /// The tags of the article, in the order in which they were
    /// associated.
    pub fn tag_list(&self, context: &Context) -> (r: Result<Vec<String>, FieldError>)
        ensures
            r matches Ok(tags) && tags@ == tags_listed(context.store.tag_article@, self.id as int)
                && forall|t: Seq<char>|
                tag_values(tags@).contains(t) <==> context.store.tags_of(self.id as int).contains(t),
    {
        Ok(tag_list(&context.store, self.id))
    }
}

/// What reading the profile of the article's author for the viewer gives.
pub open spec fn author_outcome(
    pre: Store,
    post: Store,
    entity: ArticleEntity,
    viewer: Option<i32>,
    r: Result<Profile, FieldError>,
) -> bool {
    &&& r is Err ==> post == pre
    &&& if !has_user(pre.users@, entity.author_id as int) {
            fails_with(r, ErrorKind::NotFound)
        } else {
            match viewer {
                None => r == Ok::<Profile, FieldError>(
                    profile_of(pre.user_with_id(entity.author_id as int), false),
                ) && post == pre,
                Some(v) => if has_user(pre.users@, v as int) {
                    &&& r == Ok::<Profile, FieldError>(
                        profile_of(
                            pre.user_with_id(entity.author_id as int),
                            pre.is_following(v as int, entity.author_id as int),
                        ),
                    )
                    &&& follow_materialized(
                        pre,
                        post,
                        v as int,
                        entity.author_id as int,
                    )
                } else {
                    fails_with(r, ErrorKind::NotFound)
                },
            }
        }
}

/// What reading whether the viewer has favorited the article gives.
pub open spec fn favorited_outcome(
    pre: Store,
    post: Store,
    entity: ArticleEntity,
    viewer: Option<i32>,
    r: Result<bool, FieldError>,
) -> bool {
    &&& r is Err ==> post == pre
    &&& match viewer {
            None => r == Ok::<bool, FieldError>(false) && post == pre,
            Some(v) => if has_user(pre.users@, v as int) && has_article(
                pre.articles@,
                entity.id as int,
            ) {
                &&& r == Ok::<bool, FieldError>(
                    pre.is_favorited(v as int, entity.id as int),
                )
                &&& favorite_materialized(
                    pre,
                    post,
                    v as int,
                    entity.id as int,
                )
            } else {
                fails_with(r, ErrorKind::NotFound)
            },
        }
}

/// What assembling the article for the viewer gives.
pub open spec fn assembly_outcome(
    pre: Store,
    post: Store,
    entity: ArticleEntity,
    viewer: Option<i32>,
    r: Result<Article, FieldError>,
) -> bool {
    &&& r is Err ==> post == pre
    &&& if !has_user(pre.users@, entity.author_id as int) || (viewer is Some && (
        !has_user(pre.users@, viewer->0 as int) || !has_article(
            pre.articles@,
            entity.id as int,
        ))) {
            fails_with(r, ErrorKind::NotFound)
        } else if pre.user_favorites_article.spec_count_active_into(
            entity.id as int,
        ) > i32::MAX {
            fails_with(r, ErrorKind::Internal)
        } else {
            &&& r matches Ok(article)
            &&& is_assembled(article, pre, entity, viewer)
            &&& looked_at(
                pre,
                post,
                viewer,
                entity.author_id as int,
                entity.id as int,
            )
        }
}

} // verus!
