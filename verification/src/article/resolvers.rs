//! The operations on articles as a caller sees them: inputs, pages, and the
//! checks on the caller's identity.

use vstd::prelude::*;
use crate::article::db::{
    article_created, article_deleted, create, created_row, creation_error, delete,
    favorite_written, feed_selection, get_articles, get_by_slug, get_feed, limit_of,
    listing_error, listing_selection, offset_of, set_favorite, slug_of, ArticleEntity,
    UserFavoritesArticle,
};
use crate::article::errors::ArticleError;
use crate::db::{has_slug, has_user, lemma_article_with_slug_has_id, Store};
use crate::errors::{fails_with, ErrorKind, FieldError};
use crate::rows::page_of;
use crate::schema::Context;
use crate::user::auth::{
    get_id_from_token, identity_at, names_no_account, parsed_id, signed_claims, token_text,
    SIGNING_SECRET,
};
use crate::user::errors::UserError;

verus! {

/// Payload to create an article.
#[derive(Debug)]
pub struct NewArticle {
    pub title: String,
    pub description: Option<String>,
    pub body: String,
    pub tag_list: Option<Vec<String>>,
}

/// Payload to change an article.
#[derive(Debug)]
pub struct UpdateArticle {
    pub title: Option<String>,
    pub description: Option<String>,
    pub body: Option<String>,
    pub tag_list: Option<Vec<String>>,
}

/// The filters and the window of a listing. Filters that are present must
/// all hold. `offset` defaults to 0 and `limit` to 20.
#[derive(Debug)]
pub struct ArticlesOptions {
    pub tag: Option<String>,
    pub author: Option<String>,
    pub favorited: Option<String>,
    pub limit: Option<i32>,
    pub offset: Option<i32>,
}

/// One page of articles. `articles_count` is the number of rows in this
/// page, not the number of rows that match.
#[derive(Debug)]
pub struct ArticlesPage {
    pub articles: Vec<ArticleEntity>,
    pub articles_count: i32,
}

/// The window of the feed. `offset` defaults to 0 and `limit` to 20.
#[derive(Clone, Copy, Debug, PartialEq, Eq, Structural)]
pub struct FeedOptions {
    pub limit: Option<i32>,
    pub offset: Option<i32>,
}


/// The write operations on articles.
#[derive(Clone, Copy, Debug, PartialEq, Eq, Structural)]
pub struct ArticleMutation;

/// The read operations on articles.
#[derive(Clone, Copy, Debug, PartialEq, Eq, Structural)]
pub struct ArticleQuery;


/// The result is the failure reported when no article has the slug.
pub open spec fn article_not_found<T>(r: Result<T, FieldError>) -> bool {
    &&& r is Err
    &&& r->Err_0.kind == ErrorKind::NotFound
    &&& r->Err_0.message@ == ErrorKind::NotFound.spec_message()
    &&& r->Err_0.code@ == ArticleError::NotFound.spec_code()
}

impl ArticleMutation {
    /// Creates an article for the author, now. Fails with `Internal` where
    /// no id is left, with `Conflict` where the slug of the title is taken
    /// or a tag occurs twice in the list, and with `NotFound` where the
    /// author is no account; the store is then unchanged.
    pub fn create_article_as(context: &mut Context, author_id: i32, new_article: NewArticle) -> (r:
        Result<ArticleEntity, FieldError>)
        requires
            old(context).store.wf(),
        ensures
            final(context).store.wf(),
            final(context).token == old(context).token,
            creation_outcome(old(context).store, final(context).store, author_id, new_article, r),
    {
        match create(&mut context.store, new_article, author_id) {
            Ok(article) => Ok(article),
            Err(e) => Err(FieldError::from_db(e)),
        }
    }

    /// Creates an article for the caller, now. Fails with
    /// `Unauthenticated` where the token is refused, and as
    /// `create_article_as` does; the store is then unchanged.
    pub fn create_article(context: &mut Context, new_article: NewArticle) -> (r: Result<
        ArticleEntity,
        FieldError,
    >)
        requires
            old(context).store.wf(),
        ensures
            final(context).store.wf(),
            final(context).token == old(context).token,
            r is Err ==> final(context).store == old(context).store,
            old(context).token is None ==> fails_with(r, ErrorKind::Unauthenticated),
            names_no_account(token_text(old(context).token)) ==> fails_with(
                r,
                ErrorKind::Unauthenticated,
            ),
            r matches Ok(article) ==> {
                &&& token_text(old(context).token) matches Some(text)
                &&& signed_claims(text, SIGNING_SECRET@) matches Some(claims)
                &&& parsed_id(claims.sub) == Some(article.author_id)
                &&& creation_error(
                    old(context).store,
                    new_article,
                    article.author_id,
                    slug_of(new_article.title@),
                ) is None
                &&& article.slug@ == slug_of(new_article.title@)
                &&& article == created_row(
                    new_article,
                    article.author_id,
                    article.slug,
                    article.created_at,
                    old(context).store.next_article_id,
                )
                &&& article_created(old(context).store, final(context).store, new_article, article)
            },
            exists|now: i64|
                match #[trigger] identity_at(token_text(old(context).token), now) {
                    Some(caller) => creation_outcome(old(context).store, final(context).store, caller, new_article, r),
                    None => fails_with(r, ErrorKind::Unauthenticated) && final(context).store == old(context).store,
                },
    {
        let author_id = match get_id_from_token(&context.token) {
            Ok(id) => id,
            Err(e) => {
                return Err(e);
            },
        };
        ArticleMutation::create_article_as(context, author_id, new_article)
    }

    /// Deletes the article with the slug on behalf of the caller, and with
    /// it its tag associations and favorite edges; returns the slug. Fails
    /// with `NotFound` where no article has the slug, and with
    /// `Unauthorized` where the caller is not its author; the store is
    /// then unchanged.
    pub fn delete_article_as(context: &mut Context, caller: i32, article_slug: String) -> (r:
        Result<String, FieldError>)
        requires
            old(context).store.wf(),
        ensures
            final(context).store.wf(),
            final(context).token == old(context).token,
            deletion_outcome(old(context).store, final(context).store, caller, article_slug, r),
    {
        let article = match get_by_slug(&context.store, article_slug) {
            Ok(article) => article,
            Err(_) => {
                return Err(ArticleError::NotFound.into_field_error());
            },
        };
        if article.author_id != caller {
            return Err(UserError::Unauthorized.into_field_error());
        }
        let _ = delete(&mut context.store, article.id);
        Ok(article.slug)
    }

    /// Deletes the article with the slug on behalf of the caller. Fails
    /// with `Unauthenticated` where the token is refused, with `NotFound`
    /// where no article has the slug, and with `Unauthorized` where the
    /// caller is not its author; the store is then unchanged.
    pub fn delete_article(context: &mut Context, article_slug: String) -> (r: Result<
        String,
        FieldError,
    >)
        requires
            old(context).store.wf(),
        ensures
            final(context).store.wf(),
            final(context).token == old(context).token,
            r is Err ==> final(context).store == old(context).store,
            old(context).token is None ==> fails_with(r, ErrorKind::Unauthenticated),
            names_no_account(token_text(old(context).token)) ==> fails_with(
                r,
                ErrorKind::Unauthenticated,
            ),
            r matches Err(e) ==> e.kind == ErrorKind::Unauthenticated || e.kind
                == ErrorKind::NotFound || e.kind == ErrorKind::Unauthorized,
            r matches Ok(slug) ==> {
                &&& has_slug(old(context).store.articles@, article_slug@)
                &&& slug == old(context).store.article_with_slug(article_slug@).slug
                &&& token_text(old(context).token) matches Some(text)
                &&& signed_claims(text, SIGNING_SECRET@) matches Some(claims)
                &&& parsed_id(claims.sub) == Some(
                    old(context).store.article_with_slug(article_slug@).author_id,
                )
                &&& article_deleted(
                    old(context).store,
                    final(context).store,
                    old(context).store.article_with_slug(article_slug@).id as int,
                )
            },
            exists|now: i64|
                match #[trigger] identity_at(token_text(old(context).token), now) {
                    Some(caller) => deletion_outcome(old(context).store, final(context).store, caller, article_slug, r),
                    None => fails_with(r, ErrorKind::Unauthenticated) && final(context).store == old(context).store,
                },
    {
        let caller = match get_id_from_token(&context.token) {
            Ok(id) => id,
            Err(e) => {
                return Err(e);
            },
        };
        ArticleMutation::delete_article_as(context, caller, article_slug)
    }

    /// Sets or clears the favorite of the account on the article with the
    /// slug. Fails with `NotFound` where no article has the slug or the
    /// account does not exist; the store is then unchanged.
    pub fn favorite_as(context: &mut Context, user_id: i32, article_slug: String, active: bool) -> (r:
        Result<ArticleEntity, FieldError>)
        requires
            old(context).store.wf(),
        ensures
            final(context).store.wf(),
            final(context).token == old(context).token,
            favorite_outcome(old(context).store, final(context).store, user_id, article_slug, active, r),
    {
        let article = match get_by_slug(&context.store, article_slug) {
            Ok(article) => article,
            Err(_) => {
                return Err(ArticleError::NotFound.into_field_error());
            },
        };
        proof {
            lemma_article_with_slug_has_id(&context.store, article_slug@);
        }
        let favorite = UserFavoritesArticle { article_id: article.id, user_id, active };
        match set_favorite(&mut context.store, favorite) {
            Ok(_) => Ok(article),
            Err(e) => Err(FieldError::from_db(e)),
        }
    }

    /// Sets or clears the caller's favorite on the article with the slug.
    /// Fails with `Unauthenticated` where the token is refused, and with
    /// `NotFound` where no article has the slug or the caller is no
    /// account; the store is then unchanged.
    pub fn favorite(context: &mut Context, article_slug: String, active: bool) -> (r: Result<
        ArticleEntity,
        FieldError,
    >)
        requires
            old(context).store.wf(),
        ensures
            final(context).store.wf(),
            final(context).token == old(context).token,
            r is Err ==> final(context).store == old(context).store,
            old(context).token is None ==> fails_with(r, ErrorKind::Unauthenticated),
            names_no_account(token_text(old(context).token)) ==> fails_with(
                r,
                ErrorKind::Unauthenticated,
            ),
            r matches Err(e) ==> e.kind == ErrorKind::Unauthenticated || e.kind
                == ErrorKind::NotFound,
            r matches Ok(article) ==> {
                &&& has_slug(old(context).store.articles@, article_slug@)
                &&& article == old(context).store.article_with_slug(article_slug@)
                &&& token_text(old(context).token) matches Some(text)
                &&& signed_claims(text, SIGNING_SECRET@) matches Some(claims)
                &&& parsed_id(claims.sub) matches Some(user_id)
                &&& favorite_written(
                    old(context).store,
                    final(context).store,
                    user_id as int,
                    article.id as int,
                    active,
                )
            },
            exists|now: i64|
                match #[trigger] identity_at(token_text(old(context).token), now) {
                    Some(caller) => favorite_outcome(old(context).store, final(context).store, caller, article_slug, active, r),
                    None => fails_with(r, ErrorKind::Unauthenticated) && final(context).store == old(context).store,
                },
    {
        let user_id = match get_id_from_token(&context.token) {
            Ok(id) => id,
            Err(e) => {
                return Err(e);
            },
        };
        ArticleMutation::favorite_as(context, user_id, article_slug, active)
    }
}

impl ArticleQuery {
    /// The article with the slug. Fails with `NotFound` where there is
    /// none.
    pub fn get_article(context: &Context, slug: String) -> (r: Result<ArticleEntity, FieldError>)
        requires
            context.store.wf(),
        ensures
            if has_slug(context.store.articles@, slug@) {
                r == Ok::<ArticleEntity, FieldError>(context.store.article_with_slug(slug@))
            } else {
                article_not_found(r)
            },
    {
        match get_by_slug(&context.store, slug) {
            Ok(article) => Ok(article),
            Err(_) => Err(ArticleError::NotFound.into_field_error()),
        }
    }

    /// Lists the articles that meet every filter that is present, in
    /// ascending order of creation time; the count is the number of rows
    /// in the page. Fails with `NotFound` where the author's or the
    /// favoriting account's username names no account, and with `Internal`
    /// where the offset or the limit is negative.
    pub fn get_articles(context: &Context, options: ArticlesOptions) -> (r: Result<
        ArticlesPage,
        FieldError,
    >)
        requires
            context.store.wf(),
        ensures
            match listing_error(context.store, options) {
                Some(e) => fails_with(r, ErrorKind::of_db(e)),
                None => {
                    &&& r matches Ok(page)
                    &&& page.articles@ == page_of(
                        listing_selection(context.store, options).selected(context.store),
                        offset_of(options.offset),
                        limit_of(options.limit),
                    )
                    &&& page.articles_count == page.articles@.len()
                },
            },
    {
        match get_articles(&context.store, options) {
            Ok(page) => Ok(page),
            Err(e) => Err(FieldError::from_db(e)),
        }
    }

    /// The window of a feed: offset 0 and 20 rows where no options are
    /// given.
    pub open spec fn feed_window(options: Option<FeedOptions>) -> FeedOptions {
        match options {
            Some(o) => o,
            None => FeedOptions { limit: None, offset: None },
        }
    }

    /// The feed of the account: the articles written by the accounts it
    /// actively follows, in ascending order of creation time. An account
    /// that follows no one receives an empty page. Fails with `Internal`
    /// where the offset or the limit is negative.
    pub fn feed_as(context: &Context, user_id: i32, options: Option<FeedOptions>) -> (r: Result<
        ArticlesPage,
        FieldError,
    >)
        requires
            context.store.wf(),
        ensures
            feed_outcome(context.store, user_id, options, r),
    {
        let feed_options = match options {
            Some(o) => o,
            None => FeedOptions { limit: None, offset: None },
        };
        match get_feed(&context.store, user_id, feed_options) {
            Ok(page) => Ok(page),
            Err(e) => Err(FieldError::from_db(e)),
        }
    }

    /// The feed of the caller. Fails with `Unauthenticated` where the
    /// token is refused, and with `Internal` where the offset or the limit
    /// is negative.
    pub fn feed(context: &Context, options: Option<FeedOptions>) -> (r: Result<
        ArticlesPage,
        FieldError,
    >)
        requires
            context.store.wf(),
        ensures
            context.token is None ==> fails_with(r, ErrorKind::Unauthenticated),
            names_no_account(token_text(context.token)) ==> fails_with(
                r,
                ErrorKind::Unauthenticated,
            ),
            r matches Err(e) ==> e.kind == ErrorKind::Unauthenticated || e.kind
                == ErrorKind::Internal,
            r matches Ok(page) ==> {
                &&& token_text(context.token) matches Some(text)
                &&& signed_claims(text, SIGNING_SECRET@) matches Some(claims)
                &&& parsed_id(claims.sub) matches Some(user_id)
                &&& page.articles@ == page_of(
                    feed_selection(user_id).selected(context.store),
                    offset_of(Self::feed_window(options).offset),
                    limit_of(Self::feed_window(options).limit),
                )
                &&& page.articles_count == page.articles@.len()
            },
            exists|now: i64|
                match #[trigger] identity_at(token_text(context.token), now) {
                    Some(caller) => feed_outcome(context.store, caller, options, r),
                    None => fails_with(r, ErrorKind::Unauthenticated),
                },
    {
        let user_id = match get_id_from_token(&context.token) {
            Ok(id) => id,
            Err(e) => {
                return Err(e);
            },
        };
        ArticleQuery::feed_as(context, user_id, options)
    }
}

/// What creating an article for the author gives: the failure and the
/// unchanged store where the store refuses, else the article and the store
/// with the article in it.
pub open spec fn creation_outcome(
    pre: Store,
    post: Store,
    author_id: i32,
    new_article: NewArticle,
    r: Result<ArticleEntity, FieldError>,
) -> bool {
    &&& match creation_error(
            pre,
            new_article,
            author_id,
            slug_of(new_article.title@),
        ) {
            Some(e) => fails_with(r, ErrorKind::of_db(e)) && post == pre,
            None => {
                &&& r matches Ok(article)
                &&& article.slug@ == slug_of(new_article.title@)
                &&& article == created_row(
                    new_article,
                    author_id,
                    article.slug,
                    article.created_at,
                    pre.next_article_id,
                )
                &&& article_created(
                    pre,
                    post,
                    new_article,
                    article,
                )
            },
        }
}

/// What deleting the article with the slug on behalf of the caller gives.
pub open spec fn deletion_outcome(
    pre: Store,
    post: Store,
    caller: i32,
    article_slug: String,
    r: Result<String, FieldError>,
) -> bool {
    &&& r is Err ==> post == pre
    &&& if !has_slug(pre.articles@, article_slug@) {
            article_not_found(r)
        } else if pre.article_with_slug(article_slug@).author_id != caller {
            fails_with(r, ErrorKind::Unauthorized)
        } else {
            &&& r matches Ok(slug)
            &&& slug == pre.article_with_slug(article_slug@).slug
            &&& article_deleted(
                pre,
                post,
                pre.article_with_slug(article_slug@).id as int,
            )
        }
}

/// What setting or clearing the favorite of the account on the article with
/// the slug gives.
pub open spec fn favorite_outcome(
    pre: Store,
    post: Store,
    user_id: i32,
    article_slug: String,
    active: bool,
    r: Result<ArticleEntity, FieldError>,
) -> bool {
    &&& r is Err ==> post == pre
    &&& if !has_slug(pre.articles@, article_slug@) {
            article_not_found(r)
        } else if !has_user(pre.users@, user_id as int) {
            fails_with(r, ErrorKind::NotFound)
        } else {
            &&& r == Ok::<ArticleEntity, FieldError>(
                pre.article_with_slug(article_slug@),
            )
            &&& favorite_written(
                pre,
                post,
                user_id as int,
                pre.article_with_slug(article_slug@).id as int,
                active,
            )
            &&& post.is_favorited(
                user_id as int,
                pre.article_with_slug(article_slug@).id as int,
            ) == active
        }
}

/// What the feed of the account gives.
pub open spec fn feed_outcome(
    store: Store,
    user_id: i32,
    options: Option<FeedOptions>,
    r: Result<ArticlesPage, FieldError>,
) -> bool {
    &&& if offset_of(ArticleQuery::feed_window(options).offset) < 0 || limit_of(
            ArticleQuery::feed_window(options).limit,
        ) < 0 {
            fails_with(r, ErrorKind::Internal)
        } else {
            &&& r matches Ok(page)
            &&& page.articles@ == page_of(
                feed_selection(user_id).selected(store),
                offset_of(ArticleQuery::feed_window(options).offset),
                limit_of(ArticleQuery::feed_window(options).limit),
            )
            &&& page.articles_count == page.articles@.len()
        }
}

} // verus!
