use real_world_rust_graphql::article::db::{create_at, ArticleEntity};
use real_world_rust_graphql::article::errors::ArticleError;
use real_world_rust_graphql::article::resolvers::{
    ArticleMutation, ArticleQuery, ArticlesOptions, FeedOptions, NewArticle, UpdateArticle,
};
use real_world_rust_graphql::db::Store;
use real_world_rust_graphql::errors::{DbError, ErrorKind, FieldError};
use real_world_rust_graphql::schema::{
    Context, MutationRoot, QueryRoot, UsersMutation, UsersQuery,
};
use real_world_rust_graphql::user::auth::{get_token, get_token_at, ISSUER, SIGNING_SECRET};
use real_world_rust_graphql::user::model::User;
use real_world_rust_graphql::user::resolvers::UserUpdateDTO;
use real_world_rust_graphql::user::db::{create as create_user, follow, NewUserDTO};
use real_world_rust_graphql::user::errors::UserError;
use real_world_rust_graphql::user::resolvers::{AuthPayload, NewUser};

fn context_with(names: &[&str]) -> Context {
    let mut store = Store::new();
    for name in names {
        create_user(
            &mut store,
            NewUserDTO {
                email: format!("{}@x.com", name),
                username: name.to_string(),
                password_hash: "h".to_string(),
            },
        )
        .unwrap();
    }
    Context { store, token: None }
}

fn article(title: &str, tags: &[&str]) -> NewArticle {
    NewArticle {
        title: title.to_string(),
        description: None,
        body: "body".to_string(),
        tag_list: Some(tags.iter().map(|t| t.to_string()).collect()),
    }
}

fn post(ctx: &mut Context, author: i32, slug: &str, at: i64) -> ArticleEntity {
    create_at(&mut ctx.store, article(slug, &[]), author, slug.to_string(), at).unwrap()
}

#[test]
fn roots_hand_out_the_operations() {
    assert_eq!(QueryRoot::users(), UsersQuery);
    assert_eq!(MutationRoot::users(), UsersMutation);
    assert_eq!(MutationRoot::articles(), ArticleMutation);
    assert_eq!(QueryRoot::articles(), ArticleQuery);
}

#[test]
fn error_kinds_have_messages_and_codes() {
    let expect = [
        (ErrorKind::Unauthenticated, "Unauthenticated", "unauthenticated"),
        (ErrorKind::Unauthorized, "Unauthorized", "unauthorized"),
        (ErrorKind::NotFound, "Not found", "not.found"),
        (ErrorKind::Conflict, "Conflict", "conflict"),
        (ErrorKind::InvalidCredentials, "Invalid username or password", "invalid.username.or.password"),
        (ErrorKind::Internal, "Internal Server Error", "internal.server.error"),
    ];
    for (kind, message, code) in expect {
        assert_eq!(kind.message(), message);
        assert_eq!(kind.code(), code);
        let e = kind.into_field_error();
        assert_eq!(e.kind, kind);
        assert_eq!(e.message, message);
        assert_eq!(e.code, code);
    }
}

#[test]
fn user_and_article_errors() {
    let e = UserError::InvalidUsernameOrPassword.into_field_error();
    assert_eq!(e.kind, ErrorKind::InvalidCredentials);
    assert_eq!(e.message, "Invalid username or password");
    assert_eq!(e.code, "invalid.username.or.password");
    let e = UserError::Unauthorized.into_field_error();
    assert_eq!(e.kind, ErrorKind::Unauthorized);
    assert_eq!(e.message, "Unauthorized");
    assert_eq!(e.code, "unauthorized");
    let e = UserError::Unauthenticated.into_field_error();
    assert_eq!(e.kind, ErrorKind::Unauthenticated);
    assert_eq!(e.code, "unauthenticated");
    let e = ArticleError::NotFound.into_field_error();
    assert_eq!(e.kind, ErrorKind::NotFound);
    assert_eq!(e.message, "Not found");
    assert_eq!(e.code, "article.not.found");
}

#[test]
fn store_failures_are_reported_by_kind() {
    assert_eq!(FieldError::from_db(DbError::NotFound).kind, ErrorKind::NotFound);
    assert_eq!(FieldError::from_db(DbError::UniqueViolation).kind, ErrorKind::Conflict);
    assert_eq!(FieldError::from_db(DbError::InvalidWindow).kind, ErrorKind::Internal);
    assert_eq!(FieldError::from_db(DbError::SequenceExhausted).kind, ErrorKind::Internal);
    assert_eq!(FieldError::from_db(DbError::SequenceExhausted).message, "Internal Server Error");
}

#[test]
fn whole_scenario() {
    let mut ctx = Context { store: Store::new(), token: None };
    let alice = MutationRoot::register_user(
        &mut ctx,
        NewUser {
            email: "a@x.com".to_string(),
            password: "pw1".to_string(),
            username: "alice".to_string(),
        },
    )
    .unwrap();
    let ok = MutationRoot::authenticate(
        &ctx,
        AuthPayload { username: "alice".to_string(), password: "pw1".to_string() },
    );
    assert!(ok.is_ok());
    let wrong = MutationRoot::authenticate(
        &ctx,
        AuthPayload { username: "alice".to_string(), password: "wrong".to_string() },
    );
    assert_eq!(wrong.unwrap_err().kind, ErrorKind::InvalidCredentials);
    create_user(
        &mut ctx.store,
        NewUserDTO {
            email: "b@x.com".to_string(),
            username: "bob".to_string(),
            password_hash: "h".to_string(),
        },
    )
    .unwrap();

    ctx.token = Some(alice.token);
    let new_article = NewArticle {
        title: "Hello World".to_string(),
        description: None,
        body: "body".to_string(),
        tag_list: Some(vec!["intro".to_string()]),
    };
    let a = ArticleMutation::create_article(&mut ctx, new_article).unwrap();
    assert_eq!(a.slug, "hello-world");
    assert_eq!(a.author_id, 1);
    assert_eq!(a.favorites_count(&ctx).unwrap(), 0);
    assert_eq!(a.tag_list(&ctx).unwrap(), vec!["intro".to_string()]);

    ctx.token = Some(get_token(2));
    assert!(!a.favorited(&mut ctx).unwrap());
    let favored = ArticleMutation::favorite(&mut ctx, "hello-world".to_string(), true).unwrap();
    assert_eq!(favored.id, a.id);
    assert_eq!(a.favorites_count(&ctx).unwrap(), 1);
    assert!(a.favorited(&mut ctx).unwrap());
    let author = a.author(&mut ctx).unwrap();
    assert_eq!(author.username, "alice");
    assert!(!author.following);
    UsersMutation::follow(&mut ctx, "alice".to_string()).unwrap();
    assert!(a.author(&mut ctx).unwrap().following);
    let feed = ArticleQuery::feed(&ctx, None).unwrap();
    assert_eq!(feed.articles_count, 1);
    assert_eq!(feed.articles[0].slug, "hello-world");
    assert!(ctx.store.is_consistent());
}

#[test]
fn article_getters() {
    let a = ArticleEntity {
        id: 4,
        slug: "s".to_string(),
        title: "T".to_string(),
        description: Some("d".to_string()),
        body: "b".to_string(),
        created_at: 11,
        updated_at: 12,
        author_id: 1,
    };
    assert_eq!(a.slug(), "s");
    assert_eq!(a.title(), "T");
    assert_eq!(a.body(), "b");
    assert_eq!(a.description(), &Some("d".to_string()));
    assert_eq!(a.created_at(), 11);
    assert_eq!(a.updated_at(), 12);
    let copy = a.clone();
    assert_eq!(copy.id, 4);
    assert_eq!(copy.slug, "s");
}

#[test]
fn create_article_needs_a_caller() {
    let mut ctx = context_with(&["alice"]);
    let e = ArticleMutation::create_article(&mut ctx, article("t", &[])).unwrap_err();
    assert_eq!(e.kind, ErrorKind::Unauthenticated);
    ctx.token = Some(get_token_at(1, 1_000_000_000_000_000));
    let e = ArticleMutation::create_article(&mut ctx, article("t", &[])).unwrap_err();
    assert_eq!(e.kind, ErrorKind::Unauthenticated);
    assert!(ctx.store.articles.is_empty());
    ctx.token = Some(get_token(1));
    let a = ArticleMutation::create_article(&mut ctx, article("My Title", &["x"])).unwrap();
    assert_eq!(a.slug, "my-title");
    let e = ArticleMutation::create_article(&mut ctx, article("my title", &[])).unwrap_err();
    assert_eq!(e.kind, ErrorKind::Conflict);
    let e = ArticleMutation::create_article(&mut ctx, article("other", &["x", "x"])).unwrap_err();
    assert_eq!(e.kind, ErrorKind::Conflict);
    let e = ArticleMutation::create_article_as(&mut ctx, 9, article("third", &[])).unwrap_err();
    assert_eq!(e.kind, ErrorKind::NotFound);
    assert_eq!(ctx.store.articles.len(), 1);
}

#[test]
fn only_the_author_deletes() {
    let mut ctx = context_with(&["alice", "bob"]);
    post(&mut ctx, 1, "mine", 1);
    let e = ArticleMutation::delete_article_as(&mut ctx, 2, "mine".to_string()).unwrap_err();
    assert_eq!(e.kind, ErrorKind::Unauthorized);
    assert_eq!(e.code, "unauthorized");
    let e = ArticleMutation::delete_article_as(&mut ctx, 1, "none".to_string()).unwrap_err();
    assert_eq!(e.kind, ErrorKind::NotFound);
    assert_eq!(e.code, "article.not.found");
    assert_eq!(ctx.store.articles.len(), 1);
    let e = ArticleMutation::delete_article(&mut ctx, "mine".to_string()).unwrap_err();
    assert_eq!(e.kind, ErrorKind::Unauthenticated);
    ctx.token = Some(get_token(2));
    let e = ArticleMutation::delete_article(&mut ctx, "mine".to_string()).unwrap_err();
    assert_eq!(e.kind, ErrorKind::Unauthorized);
    ctx.token = Some(get_token(1));
    assert_eq!(ArticleMutation::delete_article(&mut ctx, "mine".to_string()).unwrap(), "mine");
    assert!(ctx.store.articles.is_empty());
    let e = ArticleMutation::delete_article(&mut ctx, "mine".to_string()).unwrap_err();
    assert_eq!(e.kind, ErrorKind::NotFound);
}

#[test]
fn get_article_by_slug() {
    let mut ctx = context_with(&["alice"]);
    post(&mut ctx, 1, "one", 1);
    assert_eq!(ArticleQuery::get_article(&ctx, "one".to_string()).unwrap().id, 1);
    let e = ArticleQuery::get_article(&ctx, "two".to_string()).unwrap_err();
    assert_eq!(e.kind, ErrorKind::NotFound);
    assert_eq!(e.code, "article.not.found");
    assert_eq!(e.message, "Not found");
}

#[test]
fn listing_through_the_query() {
    let mut ctx = context_with(&["alice", "bob"]);
    post(&mut ctx, 1, "a1", 1);
    post(&mut ctx, 2, "b1", 2);
    let all = || ArticlesOptions { tag: None, author: None, favorited: None, limit: None, offset: None };
    assert_eq!(ArticleQuery::get_articles(&ctx, all()).unwrap().articles_count, 2);
    let by = ArticlesOptions { author: Some("bob".to_string()), ..all() };
    let page = ArticleQuery::get_articles(&ctx, by).unwrap();
    assert_eq!(page.articles_count, 1);
    assert_eq!(page.articles[0].slug, "b1");
    let unknown = ArticlesOptions { author: Some("zed".to_string()), ..all() };
    assert_eq!(ArticleQuery::get_articles(&ctx, unknown).unwrap_err().kind, ErrorKind::NotFound);
    let negative = ArticlesOptions { limit: Some(-1), ..all() };
    assert_eq!(ArticleQuery::get_articles(&ctx, negative).unwrap_err().kind, ErrorKind::Internal);
}

#[test]
fn feed_through_the_query() {
    let mut ctx = context_with(&["a", "b", "c"]);
    post(&mut ctx, 2, "b1", 1);
    post(&mut ctx, 3, "c1", 2);
    post(&mut ctx, 2, "b2", 3);
    follow(&mut ctx.store, &1, &"b".to_string()).unwrap();
    let e = ArticleQuery::feed(&ctx, None).unwrap_err();
    assert_eq!(e.kind, ErrorKind::Unauthenticated);
    let feed = ArticleQuery::feed_as(&ctx, 1, None).unwrap();
    assert_eq!(feed.articles_count, 2);
    assert_eq!(feed.articles[1].slug, "b2");
    let feed =
        ArticleQuery::feed_as(&ctx, 1, Some(FeedOptions { limit: Some(1), offset: None })).unwrap();
    assert_eq!(feed.articles_count, 1);
    assert_eq!(feed.articles[0].slug, "b1");
    let e = ArticleQuery::feed_as(&ctx, 1, Some(FeedOptions { limit: None, offset: Some(-1) }))
        .unwrap_err();
    assert_eq!(e.kind, ErrorKind::Internal);
    assert_eq!(ArticleQuery::feed_as(&ctx, 3, None).unwrap().articles_count, 0);
    ctx.token = Some(get_token(1));
    assert_eq!(ArticleQuery::feed(&ctx, None).unwrap().articles_count, 2);
}

#[test]
fn favorites_through_the_article() {
    let mut ctx = context_with(&["a", "b"]);
    let a = post(&mut ctx, 1, "a1", 1);
    assert_eq!(a.favorited_as(&mut ctx, None).unwrap(), false);
    assert!(ctx.store.user_favorites_article.rows.is_empty());
    assert_eq!(a.favorited_as(&mut ctx, Some(2)).unwrap(), false);
    assert_eq!(ctx.store.user_favorites_article.rows.len(), 1);
    ArticleMutation::favorite_as(&mut ctx, 2, "a1".to_string(), true).unwrap();
    assert_eq!(a.favorited_as(&mut ctx, Some(2)).unwrap(), true);
    assert_eq!(a.favorited_as(&mut ctx, Some(1)).unwrap(), false);
    assert_eq!(a.favorites_count(&ctx).unwrap(), 1);
    ArticleMutation::favorite_as(&mut ctx, 2, "a1".to_string(), false).unwrap();
    assert_eq!(a.favorites_count(&ctx).unwrap(), 0);
    assert_eq!(a.favorited_as(&mut ctx, Some(9)).unwrap_err().kind, ErrorKind::NotFound);
    let e = ArticleMutation::favorite_as(&mut ctx, 2, "zz".to_string(), true).unwrap_err();
    assert_eq!(e.code, "article.not.found");
    let e = ArticleMutation::favorite_as(&mut ctx, 9, "a1".to_string(), true).unwrap_err();
    assert_eq!(e.kind, ErrorKind::NotFound);
    let e = ArticleMutation::favorite(&mut ctx, "a1".to_string(), true).unwrap_err();
    assert_eq!(e.kind, ErrorKind::Unauthenticated);
    assert!(!a.favorited(&mut ctx).unwrap());
    ctx.token = Some("junk".to_string());
    assert_eq!(a.favorited(&mut ctx).unwrap_err().kind, ErrorKind::Unauthenticated);
    assert_eq!(a.author(&mut ctx).unwrap_err().kind, ErrorKind::Unauthenticated);
}

#[test]
fn author_profile() {
    let mut ctx = context_with(&["a", "b"]);
    let a = post(&mut ctx, 1, "a1", 1);
    let p = a.author_as(&mut ctx, None).unwrap();
    assert_eq!(p.username, "a");
    assert!(!p.following);
    follow(&mut ctx.store, &2, &"a".to_string()).unwrap();
    assert!(a.author_as(&mut ctx, Some(2)).unwrap().following);
    assert!(!a.author_as(&mut ctx, Some(1)).unwrap().following);
    assert_eq!(a.author_as(&mut ctx, Some(9)).unwrap_err().kind, ErrorKind::NotFound);
    let orphan = ArticleEntity { author_id: 9, ..a.clone() };
    assert_eq!(orphan.author_as(&mut ctx, None).unwrap_err().kind, ErrorKind::NotFound);
    assert!(!a.author(&mut ctx).unwrap().following);
}

#[test]
fn update_article_payload_holds_optional_fields() {
    let u = UpdateArticle {
        title: Some("t".to_string()),
        description: None,
        body: None,
        tag_list: Some(vec![]),
    };
    assert_eq!(u.title, Some("t".to_string()));
    assert_eq!(u.description, None);
    assert_eq!(u.body, None);
    assert_eq!(u.tag_list, Some(vec![]));
}

#[test]
fn assembled_article() {
    let mut ctx = context_with(&["a", "b"]);
    let a = create_at(&mut ctx.store, article("T", &["x", "y"]), 1, "t".to_string(), 7).unwrap();
    let seen = a.assemble_as(&mut ctx, None).unwrap();
    assert_eq!(seen.slug, "t");
    assert_eq!(seen.title, "T");
    assert_eq!(seen.description, None);
    assert_eq!(seen.body, "body");
    assert_eq!(seen.created_at, 7);
    assert_eq!(seen.updated_at, 7);
    assert_eq!(seen.author.username, "a");
    assert!(!seen.author.following);
    assert!(!seen.favorited);
    assert_eq!(seen.favorites_count, 0);
    assert_eq!(seen.tag_list, vec!["x".to_string(), "y".to_string()]);
    assert!(ctx.store.follows.rows.is_empty());
    assert!(ctx.store.user_favorites_article.rows.is_empty());

    let seen = a.assemble_as(&mut ctx, Some(2)).unwrap();
    assert!(!seen.author.following);
    assert!(!seen.favorited);
    assert_eq!(ctx.store.follows.rows.len(), 1);
    assert_eq!(ctx.store.user_favorites_article.rows.len(), 1);
    follow(&mut ctx.store, &2, &"a".to_string()).unwrap();
    ArticleMutation::favorite_as(&mut ctx, 2, "t".to_string(), true).unwrap();
    let seen = a.assemble_as(&mut ctx, Some(2)).unwrap();
    assert!(seen.author.following);
    assert!(seen.favorited);
    assert_eq!(seen.favorites_count, 1);
    let seen = a.assemble_as(&mut ctx, Some(1)).unwrap();
    assert!(!seen.author.following);
    assert!(!seen.favorited);
    assert_eq!(seen.favorites_count, 1);

    assert_eq!(a.assemble_as(&mut ctx, Some(9)).unwrap_err().kind, ErrorKind::NotFound);
    let stale = ArticleEntity { id: 50, ..a.clone() };
    assert_eq!(stale.assemble_as(&mut ctx, Some(2)).unwrap_err().kind, ErrorKind::NotFound);
    assert_eq!(stale.assemble_as(&mut ctx, None).unwrap().favorites_count, 0);
    let orphan = ArticleEntity { author_id: 9, ..a.clone() };
    assert_eq!(orphan.assemble_as(&mut ctx, None).unwrap_err().kind, ErrorKind::NotFound);

    assert!(!a.assemble(&mut ctx).unwrap().favorited);
    ctx.token = Some(get_token(2));
    assert!(a.assemble(&mut ctx).unwrap().favorited);
    ctx.token = Some("junk".to_string());
    assert_eq!(a.assemble(&mut ctx).unwrap_err().kind, ErrorKind::Unauthenticated);
    assert!(ctx.store.is_consistent());
}

fn signed_with(secret: &str, exp: u64, sub: &str) -> String {
    let mut body = serde_json::Map::new();
    body.insert("exp".to_string(), serde_json::Value::from(exp));
    body.insert("iat".to_string(), serde_json::Value::from(0u64));
    body.insert("iss".to_string(), serde_json::Value::from(ISSUER));
    body.insert("sub".to_string(), serde_json::Value::from(sub));
    jsonwebtoken::encode(
        &jsonwebtoken::Header::default(),
        &body,
        &jsonwebtoken::EncodingKey::from_secret(secret.as_bytes()),
    )
    .unwrap()
}

fn refused_everywhere(token: String) {
    let mut ctx = context_with(&["a", "b"]);
    let a = post(&mut ctx, 1, "a1", 1);
    ctx.token = Some(token);
    let before_users = ctx.store.users.len();
    let kind = |e: FieldError| e.kind;
    let no_patch =
        || UserUpdateDTO { email: None, password: None, username: None, image: None, bio: None };
    let want = ErrorKind::Unauthenticated;
    assert_eq!(ArticleMutation::create_article(&mut ctx, article("t", &[])).map_err(kind).unwrap_err(), want);
    assert_eq!(ArticleMutation::delete_article(&mut ctx, "a1".to_string()).map_err(kind).unwrap_err(), want);
    assert_eq!(ArticleMutation::favorite(&mut ctx, "a1".to_string(), true).map_err(kind).unwrap_err(), want);
    assert_eq!(ArticleQuery::feed(&ctx, None).map_err(kind).unwrap_err(), want);
    assert_eq!(MutationRoot::update_user(&mut ctx, no_patch()).map_err(kind).unwrap_err(), want);
    assert_eq!(UsersMutation::follow(&mut ctx, "b".to_string()).map_err(kind).unwrap_err(), want);
    assert_eq!(UsersMutation::unfollow(&mut ctx, "b".to_string()).map_err(kind).unwrap_err(), want);
    assert_eq!(QueryRoot::profile(&mut ctx, "b".to_string()).map_err(kind).unwrap_err(), want);
    assert_eq!(a.author(&mut ctx).map_err(kind).unwrap_err(), want);
    assert_eq!(a.favorited(&mut ctx).map_err(kind).unwrap_err(), want);
    assert_eq!(a.assemble(&mut ctx).map_err(kind).unwrap_err(), want);
    assert_eq!(ctx.store.users.len(), before_users);
    assert_eq!(ctx.store.articles.len(), 1);
    assert!(ctx.store.follows.rows.is_empty());
    assert!(ctx.store.user_favorites_article.rows.is_empty());
}

#[test]
fn token_that_is_no_token_is_refused_by_every_operation() {
    refused_everywhere("junk".to_string());
}

#[test]
fn token_signed_by_another_is_refused_by_every_operation() {
    refused_everywhere(signed_with("another secret", u64::MAX, "1"));
}

#[test]
fn token_whose_subject_is_no_id_is_refused_by_every_operation() {
    refused_everywhere(signed_with(SIGNING_SECRET, u64::MAX, "alice"));
    refused_everywhere(signed_with(SIGNING_SECRET, u64::MAX, "2147483648"));
}

#[test]
fn expired_token_is_refused_by_every_operation() {
    refused_everywhere(signed_with(SIGNING_SECRET, 1, "1"));
}

#[test]
fn token_that_never_expires_is_accepted() {
    let mut ctx = context_with(&["a", "b"]);
    ctx.token = Some(signed_with(SIGNING_SECRET, u64::MAX, "1"));
    assert_eq!(ArticleQuery::feed(&ctx, None).unwrap().articles_count, 0);
    assert!(UsersMutation::follow(&mut ctx, "b".to_string()).is_ok());
}

#[test]
fn issuing_gives_a_token_for_every_id_and_time() {
    for id in [i32::MIN, -1, 0, 1, 42, i32::MAX] {
        assert_eq!(get_token(id).split('.').count(), 3);
        for now in [i64::MIN, 0, i64::MAX] {
            let token = get_token_at(id, now);
            assert_eq!(
                real_world_rust_graphql::user::auth::get_id_from_token_at(&Some(token), now)
                    .unwrap(),
                id
            );
        }
    }
    let entity = real_world_rust_graphql::user::db::UserEntity {
        id: 3,
        email: "c@x.com".to_string(),
        username: "c\u{0}\u{1F600}\"".to_string(),
        bio: None,
        image: None,
        password_hash: None,
    };
    let user: User = User::from(entity);
    assert_eq!(user.username, "c\u{0}\u{1F600}\"");
    assert_eq!(
        real_world_rust_graphql::user::auth::get_id_from_token(&Some(user.token)).unwrap(),
        3
    );
}

#[test]
fn matching_login_always_succeeds() {
    let mut ctx = Context { store: Store::new(), token: None };
    let registered = MutationRoot::register_user(
        &mut ctx,
        NewUser {
            email: "a@x.com".to_string(),
            password: "pw1".to_string(),
            username: "alice".to_string(),
        },
    )
    .unwrap();
    assert_eq!(registered.username, "alice");
    for _ in 0..2 {
        let user = MutationRoot::authenticate(
            &ctx,
            AuthPayload { username: "alice".to_string(), password: "pw1".to_string() },
        )
        .unwrap();
        assert_eq!(user.username, "alice");
        assert_eq!(user.email, "a@x.com");
        assert_eq!(
            real_world_rust_graphql::user::auth::get_id_from_token(&Some(user.token)).unwrap(),
            1
        );
    }
}
