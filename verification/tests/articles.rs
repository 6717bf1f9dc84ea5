use real_world_rust_graphql::article::db::{
    create, create_at, delete, favorites_count, get_articles, get_by_slug, get_feed,
    get_user_favorites_article, new_article_dto_from_new_article, select_page, set_favorite,
    tag_list, window, Selection, UserFavoritesArticle,
};
use real_world_rust_graphql::article::resolvers::{ArticlesOptions, FeedOptions, NewArticle};
use real_world_rust_graphql::db::Store;
use real_world_rust_graphql::edges::Edge;
use real_world_rust_graphql::errors::DbError;
use real_world_rust_graphql::user::db::{create as create_user, follow, unfollow, NewUserDTO};

fn store_with(names: &[&str]) -> Store {
    let mut store = Store::new();
    for name in names {
        create_user(
            &mut store,
            NewUserDTO {
                email: format!("{}@x.com", name),
                username: name.to_string(),
                password_hash: "h".to_string(),
            },
        )
        .unwrap();
    }
    store
}

fn article(title: &str, tags: &[&str]) -> NewArticle {
    NewArticle {
        title: title.to_string(),
        description: None,
        body: "body".to_string(),
        tag_list: Some(tags.iter().map(|t| t.to_string()).collect()),
    }
}

fn post(store: &mut Store, author: i32, slug: &str, at: i64, tags: &[&str]) -> i32 {
    create_at(store, article(slug, tags), author, slug.to_string(), at).unwrap().id
}

fn all() -> ArticlesOptions {
    ArticlesOptions { tag: None, author: None, favorited: None, limit: None, offset: None }
}

fn slugs(store: &Store, options: ArticlesOptions) -> Vec<String> {
    get_articles(store, options).unwrap().articles.into_iter().map(|a| a.slug).collect()
}

fn tag_values(store: &Store) -> Vec<String> {
    store.tags.iter().map(|t| t.tag.clone()).collect()
}

#[test]
fn create_derives_the_slug_from_the_title() {
    let mut store = store_with(&["alice", "bob"]);
    let new_article = NewArticle {
        title: "Hello World".to_string(),
        description: None,
        body: "body".to_string(),
        tag_list: Some(vec!["intro".to_string()]),
    };
    let a = create(&mut store, new_article, 1).unwrap();
    assert_eq!(a.slug, "hello-world");
    assert_ne!(a.slug, a.title);
    assert_eq!(a.title, "Hello World");
    assert_eq!(a.description, None);
    assert_eq!(a.body, "body");
    assert_eq!(a.author_id, 1);
    assert_eq!(a.id, 1);
    assert_eq!(a.created_at, a.updated_at);
    assert!(a.created_at > 1_600_000_000_000_000);
    assert_eq!(favorites_count(&store, a.id), 0);
    assert_eq!(tag_list(&store, a.id), vec!["intro".to_string()]);
    set_favorite(&mut store, UserFavoritesArticle { article_id: a.id, user_id: 2, active: true })
        .unwrap();
    assert_eq!(favorites_count(&store, a.id), 1);
    assert!(store.is_consistent());
}

#[test]
fn slugs_of_titles() {
    let mut store = store_with(&["alice"]);
    let a = create(&mut store, article("  Rust & Verus: a 2nd look!  ", &[]), 1).unwrap();
    assert_eq!(a.slug, "rust-verus-a-2nd-look");
    let b = create(&mut store, article("Æúű--cool?", &[]), 1).unwrap();
    assert_eq!(b.slug, "aeuu-cool");
}

#[test]
fn create_with_tags() {
    let mut store = store_with(&["alice"]);
    let first = post(&mut store, 1, "first", 10, &["rust", "web"]);
    assert_eq!(tag_list(&store, first), vec!["rust".to_string(), "web".to_string()]);
    assert_eq!(tag_values(&store), vec!["rust".to_string(), "web".to_string()]);
    let second = post(&mut store, 1, "second", 20, &["rust"]);
    assert_eq!(tag_list(&store, second), vec!["rust".to_string()]);
    assert_eq!(tag_values(&store), vec!["rust".to_string(), "web".to_string()]);
    assert_eq!(store.tag_article.len(), 3);
    let by_rust = ArticlesOptions { tag: Some("rust".to_string()), ..all() };
    assert_eq!(slugs(&store, by_rust), vec!["first".to_string(), "second".to_string()]);
    let by_web = ArticlesOptions { tag: Some("web".to_string()), ..all() };
    assert_eq!(slugs(&store, by_web), vec!["first".to_string()]);
    let by_none = ArticlesOptions { tag: Some("go".to_string()), ..all() };
    assert!(slugs(&store, by_none).is_empty());
    let third = post(&mut store, 1, "third", 30, &["go", "web", "zig"]);
    assert_eq!(tag_list(&store, third).len(), 3);
    assert_eq!(
        tag_values(&store),
        vec!["rust".to_string(), "web".to_string(), "go".to_string(), "zig".to_string()]
    );
    assert!(store.is_consistent());
}

#[test]
fn create_without_tags() {
    let mut store = store_with(&["alice"]);
    let none = NewArticle {
        title: "t".to_string(),
        description: Some("d".to_string()),
        body: "b".to_string(),
        tag_list: None,
    };
    let a = create_at(&mut store, none, 1, "t".to_string(), 5).unwrap();
    assert_eq!(a.description, Some("d".to_string()));
    assert_eq!(a.created_at, 5);
    assert_eq!(a.updated_at, 5);
    assert!(tag_list(&store, a.id).is_empty());
    assert!(store.tags.is_empty());
    let b = post(&mut store, 1, "u", 6, &[]);
    assert!(tag_list(&store, b).is_empty());
}

#[test]
fn refused_creation_changes_nothing() {
    let mut store = store_with(&["alice"]);
    post(&mut store, 1, "first", 10, &["rust"]);
    let twice = create_at(&mut store, article("x", &["a", "b", "a"]), 1, "x".to_string(), 20);
    assert_eq!(twice.unwrap_err(), DbError::UniqueViolation);
    let taken = create_at(&mut store, article("first", &["new"]), 1, "first".to_string(), 20);
    assert_eq!(taken.unwrap_err(), DbError::UniqueViolation);
    let orphan = create_at(&mut store, article("y", &["new"]), 9, "y".to_string(), 20);
    assert_eq!(orphan.unwrap_err(), DbError::NotFound);
    assert_eq!(store.articles.len(), 1);
    assert_eq!(store.next_article_id, 2);
    assert_eq!(tag_values(&store), vec!["rust".to_string()]);
    assert_eq!(store.tag_article.len(), 1);
    store.next_article_id = i32::MAX;
    let full = create_at(&mut store, article("z", &[]), 1, "z".to_string(), 20);
    assert_eq!(full.unwrap_err(), DbError::SequenceExhausted);
    assert_eq!(store.articles.len(), 1);
}

#[test]
fn dto_copies_the_payload() {
    let new_article = article("Title", &["t"]);
    let dto = new_article_dto_from_new_article(&new_article, 3, "title".to_string(), 99);
    assert_eq!(dto.title, "Title");
    assert_eq!(dto.description, None);
    assert_eq!(dto.body, "body");
    assert_eq!(dto.slug, "title");
    assert_eq!(dto.author_id, 3);
    assert_eq!(dto.created_at, 99);
    assert_eq!(dto.updated_at, 99);
}

#[test]
fn articles_stand_in_order_of_creation() {
    let mut store = store_with(&["alice"]);
    post(&mut store, 1, "c", 30, &[]);
    post(&mut store, 1, "a", 10, &[]);
    post(&mut store, 1, "b", 20, &[]);
    post(&mut store, 1, "b2", 20, &[]);
    post(&mut store, 1, "z", 5, &[]);
    post(&mut store, 1, "d", 30, &[]);
    let order: Vec<String> = store.articles.iter().map(|a| a.slug.clone()).collect();
    assert_eq!(order, vec!["z", "a", "b", "b2", "c", "d"]);
    let ids: Vec<i32> = store.articles.iter().map(|a| a.id).collect();
    assert_eq!(ids, vec![5, 2, 3, 4, 1, 6]);
    assert!(store.is_consistent());
}

#[test]
fn listing_by_author() {
    let mut store = store_with(&["alice", "bob"]);
    post(&mut store, 1, "a1", 10, &[]);
    post(&mut store, 2, "b1", 20, &[]);
    post(&mut store, 1, "a2", 30, &[]);
    post(&mut store, 2, "b2", 40, &[]);
    post(&mut store, 1, "a3", 50, &[]);
    let by_alice = || ArticlesOptions { author: Some("alice".to_string()), ..all() };
    let page = get_articles(&store, by_alice()).unwrap();
    assert_eq!(page.articles_count, 3);
    let listed: Vec<&str> = page.articles.iter().map(|a| a.slug.as_str()).collect();
    assert_eq!(listed, vec!["a1", "a2", "a3"]);
    assert!(page.articles.iter().all(|a| a.author_id == 1));
    assert!(page.articles.windows(2).all(|w| w[0].created_at <= w[1].created_at));
    let second = ArticlesOptions { offset: Some(1), limit: Some(1), ..by_alice() };
    let page = get_articles(&store, second).unwrap();
    assert_eq!(page.articles_count, 1);
    assert_eq!(page.articles[0].slug, "a2");
    let rest = ArticlesOptions { offset: Some(2), ..by_alice() };
    assert_eq!(slugs(&store, rest), vec!["a3"]);
    let beyond = ArticlesOptions { offset: Some(3), ..by_alice() };
    let page = get_articles(&store, beyond).unwrap();
    assert_eq!(page.articles_count, 0);
    assert!(page.articles.is_empty());
    let none = ArticlesOptions { limit: Some(0), ..by_alice() };
    assert!(slugs(&store, none).is_empty());
    let by_bob = ArticlesOptions { author: Some("bob".to_string()), ..all() };
    assert_eq!(slugs(&store, by_bob), vec!["b1", "b2"]);
    assert_eq!(slugs(&store, all()), vec!["a1", "b1", "a2", "b2", "a3"]);
}

#[test]
fn listing_count_is_the_page_length() {
    let mut store = store_with(&["alice"]);
    for i in 0..25 {
        post(&mut store, 1, &format!("s{}", i), i as i64, &[]);
    }
    let page = get_articles(&store, all()).unwrap();
    assert_eq!(page.articles.len(), 20);
    assert_eq!(page.articles_count, 20);
    assert_eq!(page.articles[0].slug, "s0");
    assert_eq!(page.articles[19].slug, "s19");
    let tail = ArticlesOptions { offset: Some(20), ..all() };
    let page = get_articles(&store, tail).unwrap();
    assert_eq!(page.articles_count, 5);
    assert_eq!(page.articles[0].slug, "s20");
    let wide = ArticlesOptions { limit: Some(i32::MAX), ..all() };
    assert_eq!(get_articles(&store, wide).unwrap().articles_count, 25);
    let far = ArticlesOptions { offset: Some(i32::MAX), limit: Some(i32::MAX), ..all() };
    assert_eq!(get_articles(&store, far).unwrap().articles_count, 0);
}

#[test]
fn listing_filters_compose() {
    let mut store = store_with(&["alice", "bob", "carol"]);
    let a1 = post(&mut store, 1, "a1", 10, &["rust"]);
    let a2 = post(&mut store, 1, "a2", 20, &["web"]);
    let b1 = post(&mut store, 2, "b1", 30, &["rust"]);
    for id in [a1, a2, b1] {
        set_favorite(&mut store, UserFavoritesArticle { article_id: id, user_id: 3, active: true })
            .unwrap();
    }
    set_favorite(&mut store, UserFavoritesArticle { article_id: a2, user_id: 3, active: false })
        .unwrap();
    set_favorite(&mut store, UserFavoritesArticle { article_id: a2, user_id: 2, active: true })
        .unwrap();
    let favorited = || ArticlesOptions { favorited: Some("carol".to_string()), ..all() };
    assert_eq!(slugs(&store, favorited()), vec!["a1", "b1"]);
    let both = ArticlesOptions { author: Some("alice".to_string()), ..favorited() };
    assert_eq!(slugs(&store, both), vec!["a1"]);
    let three = ArticlesOptions {
        tag: Some("rust".to_string()),
        author: Some("bob".to_string()),
        ..favorited()
    };
    assert_eq!(slugs(&store, three), vec!["b1"]);
    let empty = ArticlesOptions {
        tag: Some("web".to_string()),
        author: Some("alice".to_string()),
        ..favorited()
    };
    assert!(slugs(&store, empty).is_empty());
    let by_alice = ArticlesOptions { favorited: Some("alice".to_string()), ..all() };
    assert!(slugs(&store, by_alice).is_empty());
}

#[test]
fn listing_failures() {
    let mut store = store_with(&["alice"]);
    post(&mut store, 1, "a1", 10, &[]);
    let unknown = ArticlesOptions { author: Some("zed".to_string()), ..all() };
    assert_eq!(get_articles(&store, unknown).unwrap_err(), DbError::NotFound);
    let unknown = ArticlesOptions { favorited: Some("zed".to_string()), ..all() };
    assert_eq!(get_articles(&store, unknown).unwrap_err(), DbError::NotFound);
    let negative = ArticlesOptions { offset: Some(-1), ..all() };
    assert_eq!(get_articles(&store, negative).unwrap_err(), DbError::InvalidWindow);
    let negative = ArticlesOptions { limit: Some(-1), ..all() };
    assert_eq!(get_articles(&store, negative).unwrap_err(), DbError::InvalidWindow);
    let both = ArticlesOptions { author: Some("zed".to_string()), limit: Some(-1), ..all() };
    assert_eq!(get_articles(&store, both).unwrap_err(), DbError::NotFound);
}

#[test]
fn window_defaults() {
    assert_eq!(window(None, None), Some((0, 20)));
    assert_eq!(window(Some(3), None), Some((3, 20)));
    assert_eq!(window(None, Some(7)), Some((0, 7)));
    assert_eq!(window(Some(0), Some(0)), Some((0, 0)));
    assert_eq!(window(Some(-1), None), None);
    assert_eq!(window(None, Some(-5)), None);
    assert_eq!(window(Some(i32::MAX), Some(i32::MAX)), Some((2147483647, 2147483647)));
}

#[test]
fn feed_is_the_followed_authors() {
    let mut store = store_with(&["a", "b", "c", "d"]);
    post(&mut store, 4, "d1", 1, &[]);
    post(&mut store, 2, "b1", 2, &[]);
    post(&mut store, 4, "d2", 3, &[]);
    post(&mut store, 3, "c1", 4, &[]);
    post(&mut store, 4, "d3", 5, &[]);
    post(&mut store, 2, "b2", 6, &[]);
    post(&mut store, 1, "a1", 7, &[]);
    let open = FeedOptions { limit: None, offset: None };
    let empty = get_feed(&store, 1, open).unwrap();
    assert_eq!(empty.articles_count, 0);
    assert!(empty.articles.is_empty());
    follow(&mut store, &1, &"b".to_string()).unwrap();
    follow(&mut store, &1, &"c".to_string()).unwrap();
    follow(&mut store, &2, &"d".to_string()).unwrap();
    let feed = get_feed(&store, 1, open).unwrap();
    let listed: Vec<&str> = feed.articles.iter().map(|a| a.slug.as_str()).collect();
    assert_eq!(listed, vec!["b1", "c1", "b2"]);
    assert_eq!(feed.articles_count, 3);
    assert!(feed.articles.iter().all(|a| a.author_id != 4));
    let page = get_feed(&store, 1, FeedOptions { limit: Some(1), offset: Some(1) }).unwrap();
    assert_eq!(page.articles_count, 1);
    assert_eq!(page.articles[0].slug, "c1");
    unfollow(&mut store, &1, &"b".to_string()).unwrap();
    let feed = get_feed(&store, 1, open).unwrap();
    let listed: Vec<&str> = feed.articles.iter().map(|a| a.slug.as_str()).collect();
    assert_eq!(listed, vec!["c1"]);
    let stranger = get_feed(&store, 99, open).unwrap();
    assert_eq!(stranger.articles_count, 0);
    let bad = get_feed(&store, 1, FeedOptions { limit: Some(-1), offset: None });
    assert_eq!(bad.unwrap_err(), DbError::InvalidWindow);
    let bad = get_feed(&store, 1, FeedOptions { limit: None, offset: Some(-3) });
    assert_eq!(bad.unwrap_err(), DbError::InvalidWindow);
}

#[test]
fn inactive_follow_edge_feeds_nothing() {
    let mut store = store_with(&["a", "b"]);
    post(&mut store, 2, "b1", 2, &[]);
    store.follows.rows.push(Edge { source: 1, target: 2, active: false });
    assert!(store.is_consistent());
    let feed = get_feed(&store, 1, FeedOptions { limit: None, offset: None }).unwrap();
    assert_eq!(feed.articles_count, 0);
}

#[test]
fn selection_page() {
    let mut store = store_with(&["a", "b"]);
    post(&mut store, 1, "a1", 1, &["x"]);
    post(&mut store, 2, "b1", 2, &["x"]);
    post(&mut store, 1, "a2", 3, &[]);
    let everything =
        Selection { tag: None, author_id: None, favorited_by: None, followed_by: None };
    assert_eq!(select_page(&store, &everything, 0, 10).len(), 3);
    assert_eq!(select_page(&store, &everything, 1, 1)[0].slug, "b1");
    assert!(select_page(&store, &everything, 0, 0).is_empty());
    assert!(select_page(&store, &everything, 5, 10).is_empty());
    let tagged = Selection { tag: Some("x".to_string()), author_id: Some(1), ..everything };
    let page = select_page(&store, &tagged, 0, usize::MAX);
    assert_eq!(page.len(), 1);
    assert_eq!(page[0].slug, "a1");
    assert!(tagged.check(&store, &store.articles[0]));
    assert!(!tagged.check(&store, &store.articles[1]));
    assert!(!tagged.check(&store, &store.articles[2]));
}

#[test]
fn favorites() {
    let mut store = store_with(&["a", "b"]);
    let id = post(&mut store, 1, "a1", 1, &[]);
    assert_eq!(get_user_favorites_article(&mut store, 2, id), Ok(false));
    assert_eq!(
        store.user_favorites_article.rows,
        vec![Edge { source: 2, target: id, active: false }]
    );
    assert_eq!(favorites_count(&store, id), 0);
    let fav = |user_id, active| UserFavoritesArticle { article_id: id, user_id, active };
    set_favorite(&mut store, fav(2, true)).unwrap();
    assert_eq!(get_user_favorites_article(&mut store, 2, id), Ok(true));
    assert_eq!(favorites_count(&store, id), 1);
    set_favorite(&mut store, fav(2, true)).unwrap();
    assert_eq!(favorites_count(&store, id), 1);
    assert_eq!(store.user_favorites_article.rows.len(), 1);
    set_favorite(&mut store, fav(1, true)).unwrap();
    assert_eq!(favorites_count(&store, id), 2);
    set_favorite(&mut store, fav(2, false)).unwrap();
    assert_eq!(favorites_count(&store, id), 1);
    assert_eq!(get_user_favorites_article(&mut store, 2, id), Ok(false));
    assert_eq!(store.user_favorites_article.rows.len(), 2);
    assert_eq!(get_user_favorites_article(&mut store, 9, id), Err(DbError::NotFound));
    assert_eq!(get_user_favorites_article(&mut store, 1, 77), Err(DbError::NotFound));
    assert_eq!(set_favorite(&mut store, fav(9, true)), Err(DbError::NotFound));
    let gone = UserFavoritesArticle { article_id: 77, user_id: 1, active: true };
    assert_eq!(set_favorite(&mut store, gone), Err(DbError::NotFound));
    assert_eq!(store.user_favorites_article.rows.len(), 2);
    assert!(store.is_consistent());
}

#[test]
fn slug_lookup() {
    let mut store = store_with(&["a"]);
    post(&mut store, 1, "one", 1, &[]);
    post(&mut store, 1, "two", 2, &[]);
    assert_eq!(get_by_slug(&store, "two".to_string()).unwrap().id, 2);
    assert_eq!(get_by_slug(&store, "one".to_string()).unwrap().created_at, 1);
    assert_eq!(get_by_slug(&store, "three".to_string()).unwrap_err(), DbError::NotFound);
    assert_eq!(get_by_slug(&store, "".to_string()).unwrap_err(), DbError::NotFound);
}

#[test]
fn delete_cascades() {
    let mut store = store_with(&["a", "b"]);
    let one = post(&mut store, 1, "one", 1, &["x", "y"]);
    let two = post(&mut store, 2, "two", 2, &["x"]);
    set_favorite(&mut store, UserFavoritesArticle { article_id: one, user_id: 2, active: true })
        .unwrap();
    set_favorite(&mut store, UserFavoritesArticle { article_id: two, user_id: 1, active: true })
        .unwrap();
    set_favorite(&mut store, UserFavoritesArticle { article_id: one, user_id: 1, active: false })
        .unwrap();
    assert_eq!(delete(&mut store, one), Ok(1));
    assert_eq!(get_by_slug(&store, "one".to_string()).unwrap_err(), DbError::NotFound);
    assert_eq!(store.articles.len(), 1);
    assert_eq!(store.articles[0].slug, "two");
    assert!(tag_list(&store, one).is_empty());
    assert_eq!(tag_list(&store, two), vec!["x".to_string()]);
    assert_eq!(tag_values(&store), vec!["x".to_string(), "y".to_string()]);
    assert_eq!(store.user_favorites_article.rows, vec![Edge { source: 1, target: two, active: true }]);
    assert_eq!(favorites_count(&store, one), 0);
    assert_eq!(favorites_count(&store, two), 1);
    assert!(store.is_consistent());
    assert_eq!(delete(&mut store, one), Ok(0));
    assert_eq!(delete(&mut store, 99), Ok(0));
    assert_eq!(store.articles.len(), 1);
    let three = post(&mut store, 1, "one", 3, &["y"]);
    assert_eq!(three, 3);
    assert!(store.is_consistent());
}

#[test]
fn inconsistent_stores_are_told() {
    let good = || {
        let mut store = store_with(&["a", "b"]);
        post(&mut store, 1, "one", 1, &["x"]);
        post(&mut store, 2, "two", 2, &["x"]);
        follow(&mut store, &1, &"b".to_string()).unwrap();
        set_favorite(&mut store, UserFavoritesArticle { article_id: 1, user_id: 2, active: true })
            .unwrap();
        store
    };
    assert!(good().is_consistent());
    assert!(Store::new().is_consistent());
    let mut s = good();
    s.users[1].username = "a".to_string();
    assert!(!s.is_consistent());
    let mut s = good();
    s.users[1].email = "a@x.com".to_string();
    assert!(!s.is_consistent());
    let mut s = good();
    s.users[1].id = 1;
    assert!(!s.is_consistent());
    let mut s = good();
    s.next_user_id = 2;
    assert!(!s.is_consistent());
    let mut s = good();
    s.articles[0].created_at = 5;
    assert!(!s.is_consistent());
    let mut s = good();
    s.articles[1].slug = "one".to_string();
    assert!(!s.is_consistent());
    let mut s = good();
    s.articles[1].author_id = 7;
    assert!(!s.is_consistent());
    let mut s = good();
    s.next_article_id = 1;
    assert!(!s.is_consistent());
    let mut s = good();
    s.tags.clear();
    assert!(!s.is_consistent());
    let mut s = good();
    let again = s.tags[0].clone();
    s.tags.push(again);
    assert!(!s.is_consistent());
    let mut s = good();
    s.tag_article[1].article_id = 1;
    assert!(!s.is_consistent());
    let mut s = good();
    s.tag_article[1].article_id = 9;
    assert!(!s.is_consistent());
    let mut s = good();
    s.follows.rows.push(Edge { source: 1, target: 9, active: false });
    assert!(!s.is_consistent());
    let mut s = good();
    s.follows.rows.push(Edge { source: 1, target: 2, active: false });
    assert!(!s.is_consistent());
    let mut s = good();
    s.user_favorites_article.rows.push(Edge { source: 1, target: 9, active: false });
    assert!(!s.is_consistent());
    let mut s = good();
    s.user_favorites_article.rows.push(Edge { source: 9, target: 1, active: false });
    assert!(!s.is_consistent());
}
