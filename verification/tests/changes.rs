use real_world_rust_graphql::article::db::{
    create_at, delete, get_user_favorites_article, set_favorite, UserFavoritesArticle,
};
use real_world_rust_graphql::article::resolvers::NewArticle;
use real_world_rust_graphql::changes::{
    changes, holds_key, holds_same, positions, same_text, table_changes, Kind,
};
use real_world_rust_graphql::db::Store;
use real_world_rust_graphql::edges::Edge;
use real_world_rust_graphql::user::db::{
    create as create_user, follow, get_follows, unfollow, update_user, NewUserDTO, UserUpdateDTO,
};

fn base() -> Store {
    let mut store = Store::new();
    for name in ["a", "b"] {
        create_user(
            &mut store,
            NewUserDTO {
                email: format!("{}@x.com", name),
                username: name.to_string(),
                password_hash: "h".to_string(),
            },
        )
        .unwrap();
    }
    post(&mut store, 1, "one", 10, &["x"]);
    follow(&mut store, &1, &"b".to_string()).unwrap();
    store
}

fn post(store: &mut Store, author: i32, slug: &str, at: i64, tags: &[&str]) -> i32 {
    let new_article = NewArticle {
        title: slug.to_string(),
        description: None,
        body: "body".to_string(),
        tag_list: Some(tags.iter().map(|t| t.to_string()).collect()),
    };
    create_at(store, new_article, author, slug.to_string(), at).unwrap().id
}

fn none() -> Vec<usize> {
    Vec::new()
}

#[test]
fn no_operation_no_change() {
    let c = changes(&base(), &base());
    for t in [&c.users, &c.articles, &c.tags, &c.tag_article, &c.follows, &c.user_favorites_article]
    {
        assert_eq!(t.inserted, none());
        assert_eq!(t.updated, none());
        assert_eq!(t.removed, none());
    }
    assert_eq!(c.next_user_id, None);
    assert_eq!(c.next_article_id, None);
    let c = changes(&Store::new(), &Store::new());
    assert_eq!(c.users.inserted, none());
}

#[test]
fn registration_inserts_one_account() {
    let mut after = base();
    create_user(
        &mut after,
        NewUserDTO {
            email: "c@x.com".to_string(),
            username: "c".to_string(),
            password_hash: "h".to_string(),
        },
    )
    .unwrap();
    let c = changes(&base(), &after);
    assert_eq!(c.users.inserted, vec![2]);
    assert_eq!(c.users.updated, none());
    assert_eq!(c.users.removed, none());
    assert_eq!(c.next_user_id, Some(4));
    assert_eq!(c.next_article_id, None);
    assert_eq!(c.articles.inserted, none());
    assert_eq!(c.follows.inserted, none());
}

#[test]
fn update_changes_one_account() {
    let mut after = base();
    let change = UserUpdateDTO {
        email: "b@x.com".to_string(),
        username: "b".to_string(),
        bio: Some("hello".to_string()),
        image: None,
        password_hash: None,
    };
    update_user(&mut after, change, &2).unwrap();
    let c = changes(&base(), &after);
    assert_eq!(c.users.updated, vec![1]);
    assert_eq!(c.users.inserted, none());
    assert_eq!(c.users.removed, none());
    assert_eq!(c.next_user_id, None);
    let same = UserUpdateDTO {
        email: "a@x.com".to_string(),
        username: "a".to_string(),
        bio: None,
        image: None,
        password_hash: None,
    };
    let mut untouched = base();
    update_user(&mut untouched, same, &1).unwrap();
    assert_eq!(changes(&base(), &untouched).users.updated, none());
}

#[test]
fn follow_edge_changes() {
    let mut after = base();
    follow(&mut after, &2, &"a".to_string()).unwrap();
    unfollow(&mut after, &1, &"b".to_string()).unwrap();
    let c = changes(&base(), &after);
    assert_eq!(c.follows.inserted, vec![1]);
    assert_eq!(c.follows.updated, vec![0]);
    assert_eq!(c.follows.removed, none());
    let mut read = base();
    assert_eq!(get_follows(&mut read, &2, &"b".to_string()), Ok(false));
    assert_eq!(get_follows(&mut read, &1, &"b".to_string()), Ok(true));
    let c = changes(&base(), &read);
    assert_eq!(c.follows.inserted, vec![1]);
    assert_eq!(c.follows.updated, none());
    let mut again = base();
    follow(&mut again, &1, &"b".to_string()).unwrap();
    let c = changes(&base(), &again);
    assert_eq!(c.follows.inserted, none());
    assert_eq!(c.follows.updated, none());
}

#[test]
fn article_creation_changes() {
    let mut after = base();
    post(&mut after, 2, "zero", 5, &["x", "y"]);
    let c = changes(&base(), &after);
    assert_eq!(c.articles.inserted, vec![0]);
    assert_eq!(c.articles.updated, none());
    assert_eq!(c.articles.removed, none());
    assert_eq!(c.tags.inserted, vec![1]);
    assert_eq!(c.tags.removed, none());
    assert_eq!(c.tag_article.inserted, vec![1, 2]);
    assert_eq!(c.next_article_id, Some(3));
    assert_eq!(c.next_user_id, None);
    assert_eq!(c.users.inserted, none());
}

#[test]
fn article_deletion_cascades() {
    let mut before = base();
    post(&mut before, 2, "two", 20, &["x", "y"]);
    set_favorite(&mut before, UserFavoritesArticle { article_id: 1, user_id: 2, active: true })
        .unwrap();
    set_favorite(&mut before, UserFavoritesArticle { article_id: 2, user_id: 1, active: true })
        .unwrap();
    let mut after = base();
    post(&mut after, 2, "two", 20, &["x", "y"]);
    set_favorite(&mut after, UserFavoritesArticle { article_id: 1, user_id: 2, active: true })
        .unwrap();
    set_favorite(&mut after, UserFavoritesArticle { article_id: 2, user_id: 1, active: true })
        .unwrap();
    assert_eq!(delete(&mut after, 1), Ok(1));
    let c = changes(&before, &after);
    assert_eq!(c.articles.removed, vec![0]);
    assert_eq!(c.articles.inserted, none());
    assert_eq!(c.tag_article.removed, vec![0]);
    assert_eq!(c.tag_article.inserted, none());
    assert_eq!(c.user_favorites_article.removed, vec![0]);
    assert_eq!(c.user_favorites_article.inserted, none());
    assert_eq!(c.tags.removed, none());
    assert_eq!(c.next_article_id, None);
}

#[test]
fn favorite_edge_changes() {
    let mut after = base();
    assert_eq!(get_user_favorites_article(&mut after, 2, 1), Ok(false));
    let c = changes(&base(), &after);
    assert_eq!(c.user_favorites_article.inserted, vec![0]);
    let mut then = base();
    get_user_favorites_article(&mut then, 2, 1).unwrap();
    set_favorite(&mut then, UserFavoritesArticle { article_id: 1, user_id: 2, active: true })
        .unwrap();
    let c = changes(&after, &then);
    assert_eq!(c.user_favorites_article.inserted, none());
    assert_eq!(c.user_favorites_article.updated, vec![0]);
}

#[test]
fn table_changes_of_edges() {
    let e = |source, target, active| Edge { source, target, active };
    let before = vec![e(1, 2, true), e(1, 3, false), e(2, 1, true), e(4, 4, true)];
    let after = vec![e(2, 1, true), e(1, 3, true), e(5, 5, false), e(1, 2, true), e(6, 1, true)];
    let d = table_changes(&before, &after);
    assert_eq!(d.inserted, vec![2, 4]);
    assert_eq!(d.updated, vec![1]);
    assert_eq!(d.removed, vec![3]);
    assert_eq!(positions(Kind::Inserted, &before, &after), vec![2, 4]);
    assert_eq!(positions(Kind::Updated, &before, &after), vec![1]);
    assert_eq!(positions(Kind::Removed, &before, &after), vec![3]);
    let empty: Vec<Edge> = Vec::new();
    let d = table_changes(&empty, &after);
    assert_eq!(d.inserted, vec![0, 1, 2, 3, 4]);
    assert_eq!(d.updated, none());
    assert_eq!(d.removed, none());
    let d = table_changes(&before, &empty);
    assert_eq!(d.inserted, none());
    assert_eq!(d.removed, vec![0, 1, 2, 3]);
    assert!(holds_key(&before, &e(1, 3, true)));
    assert!(!holds_same(&before, &e(1, 3, true)));
    assert!(holds_same(&before, &e(1, 3, false)));
    assert!(!holds_key(&before, &e(3, 1, false)));
}

#[test]
fn applying_the_changes_gives_the_second_table() {
    let e = |source, target, active| Edge { source, target, active };
    let before = vec![e(1, 2, true), e(1, 3, false), e(2, 1, true), e(4, 4, true)];
    let after = vec![e(2, 1, true), e(1, 3, true), e(5, 5, false), e(1, 2, true), e(6, 1, true)];
    let d = table_changes(&before, &after);
    let mut table = before.clone();
    for &i in &d.removed {
        let gone = before[i];
        table.retain(|r| !(r.source == gone.source && r.target == gone.target));
    }
    for &j in &d.inserted {
        table.push(after[j]);
    }
    for &j in &d.updated {
        let new = after[j];
        for r in table.iter_mut() {
            if r.source == new.source && r.target == new.target {
                *r = new;
            }
        }
    }
    let key = |r: &Edge| (r.source, r.target);
    table.sort_by_key(key);
    let mut want = after.clone();
    want.sort_by_key(key);
    assert_eq!(table, want);
}

#[test]
fn text_that_may_be_null() {
    assert!(same_text(&None, &None));
    assert!(same_text(&Some("a".to_string()), &Some("a".to_string())));
    assert!(!same_text(&Some("a".to_string()), &Some("b".to_string())));
    assert!(!same_text(&Some("".to_string()), &None));
    assert!(!same_text(&None, &Some("a".to_string())));
}
