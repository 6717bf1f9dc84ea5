use real_world_rust_graphql::db::Store;
use real_world_rust_graphql::edges::{Edge, EdgeTable};
use real_world_rust_graphql::errors::{DbError, ErrorKind};
use real_world_rust_graphql::schema::{Context, UsersMutation};
use real_world_rust_graphql::user::auth::get_token;
use real_world_rust_graphql::user::db::{create, follow, get_follows, unfollow, NewUserDTO};

fn store_with(names: &[&str]) -> Store {
    let mut store = Store::new();
    for name in names {
        create(
            &mut store,
            NewUserDTO {
                email: format!("{}@x.com", name),
                username: name.to_string(),
                password_hash: "h".to_string(),
            },
        )
        .unwrap();
    }
    store
}

fn name(s: &str) -> String {
    s.to_string()
}

#[test]
fn follow_then_unfollow() {
    let mut store = store_with(&["a", "b"]);
    follow(&mut store, &1, &name("b")).unwrap();
    assert_eq!(get_follows(&mut store, &1, &name("b")), Ok(true));
    unfollow(&mut store, &1, &name("b")).unwrap();
    assert_eq!(get_follows(&mut store, &1, &name("b")), Ok(false));
    assert_eq!(store.follows.rows, vec![Edge { source: 1, target: 2, active: false }]);
    follow(&mut store, &1, &name("b")).unwrap();
    assert_eq!(get_follows(&mut store, &1, &name("b")), Ok(true));
    assert_eq!(store.follows.rows.len(), 1);
    assert!(store.is_consistent());
}

#[test]
fn follow_twice_is_follow_once() {
    let mut store = store_with(&["a", "b", "c"]);
    follow(&mut store, &1, &name("c")).unwrap();
    follow(&mut store, &1, &name("b")).unwrap();
    let once = store.follows.rows.clone();
    follow(&mut store, &1, &name("b")).unwrap();
    assert_eq!(store.follows.rows, once);
    assert_eq!(
        once,
        vec![
            Edge { source: 1, target: 3, active: true },
            Edge { source: 1, target: 2, active: true },
        ]
    );
}

#[test]
fn follow_is_directed() {
    let mut store = store_with(&["a", "b"]);
    follow(&mut store, &1, &name("b")).unwrap();
    assert_eq!(get_follows(&mut store, &2, &name("a")), Ok(false));
    assert_eq!(get_follows(&mut store, &1, &name("b")), Ok(true));
}

#[test]
fn untouched_pair_reads_false_and_is_materialized() {
    let mut store = store_with(&["a", "b"]);
    assert!(store.follows.rows.is_empty());
    assert_eq!(get_follows(&mut store, &1, &name("b")), Ok(false));
    assert_eq!(store.follows.rows, vec![Edge { source: 1, target: 2, active: false }]);
    assert_eq!(get_follows(&mut store, &1, &name("b")), Ok(false));
    assert_eq!(store.follows.rows.len(), 1);
    follow(&mut store, &1, &name("b")).unwrap();
    assert_eq!(store.follows.rows, vec![Edge { source: 1, target: 2, active: true }]);
}

#[test]
fn unfollow_of_an_untouched_pair_inserts_inactive() {
    let mut store = store_with(&["a", "b"]);
    unfollow(&mut store, &2, &name("a")).unwrap();
    assert_eq!(store.follows.rows, vec![Edge { source: 2, target: 1, active: false }]);
}

#[test]
fn unknown_accounts_are_not_found() {
    let mut store = store_with(&["a", "b"]);
    assert_eq!(get_follows(&mut store, &1, &name("zed")), Err(DbError::NotFound));
    assert_eq!(get_follows(&mut store, &7, &name("a")), Err(DbError::NotFound));
    assert_eq!(follow(&mut store, &1, &name("zed")), Err(DbError::NotFound));
    assert_eq!(follow(&mut store, &7, &name("a")), Err(DbError::NotFound));
    assert_eq!(unfollow(&mut store, &7, &name("a")), Err(DbError::NotFound));
    assert!(store.follows.rows.is_empty());
}

#[test]
fn following_oneself_is_accepted() {
    let mut store = store_with(&["a"]);
    follow(&mut store, &1, &name("a")).unwrap();
    assert_eq!(get_follows(&mut store, &1, &name("a")), Ok(true));
    assert!(store.is_consistent());
}

#[test]
fn follow_as_caller() {
    let mut ctx = Context { store: store_with(&["a", "b"]), token: None };
    let e = UsersMutation::follow(&mut ctx, name("b")).unwrap_err();
    assert_eq!(e.kind, ErrorKind::Unauthenticated);
    ctx.token = Some(get_token(1));
    UsersMutation::follow(&mut ctx, name("b")).unwrap();
    assert_eq!(get_follows(&mut ctx.store, &1, &name("b")), Ok(true));
    UsersMutation::unfollow(&mut ctx, name("b")).unwrap();
    assert_eq!(get_follows(&mut ctx.store, &1, &name("b")), Ok(false));
    let e = UsersMutation::follow(&mut ctx, name("zed")).unwrap_err();
    assert_eq!(e.kind, ErrorKind::NotFound);
    let e = UsersMutation::follow_as(&mut ctx, 9, name("a"), true).unwrap_err();
    assert_eq!(e.kind, ErrorKind::NotFound);
    UsersMutation::follow_as(&mut ctx, 2, name("a"), true).unwrap();
    assert_eq!(get_follows(&mut ctx.store, &2, &name("a")), Ok(true));
}

#[test]
fn edge_table_upsert_and_read() {
    let mut t = EdgeTable::new();
    assert!(t.rows.is_empty());
    assert_eq!(t.get(1, 2), None);
    assert_eq!(t.position(1, 2), None);
    t.upsert(1, 2, true);
    t.upsert(3, 2, false);
    t.upsert(1, 5, true);
    assert_eq!(t.get(1, 2), Some(true));
    assert_eq!(t.get(3, 2), Some(false));
    assert_eq!(t.get(2, 1), None);
    assert_eq!(t.position(3, 2), Some(1));
    t.upsert(3, 2, true);
    assert_eq!(t.rows.len(), 3);
    assert_eq!(t.rows[1], Edge { source: 3, target: 2, active: true });
    assert!(t.is_consistent());
}

#[test]
fn edge_table_read_through() {
    let mut t = EdgeTable::new();
    assert!(!t.read_through(4, 5));
    assert_eq!(t.rows, vec![Edge { source: 4, target: 5, active: false }]);
    t.upsert(4, 5, true);
    assert!(t.read_through(4, 5));
    assert_eq!(t.rows.len(), 1);
}

#[test]
fn edge_table_counts_active_edges() {
    let mut t = EdgeTable::new();
    assert_eq!(t.count_active_into(9), 0);
    t.upsert(1, 9, true);
    t.upsert(2, 9, true);
    t.upsert(3, 9, false);
    t.upsert(1, 8, true);
    assert_eq!(t.count_active_into(9), 2);
    assert_eq!(t.count_active_into(8), 1);
    assert_eq!(t.count_active_into(7), 0);
    t.upsert(2, 9, false);
    assert_eq!(t.count_active_into(9), 1);
    t.upsert(2, 9, false);
    assert_eq!(t.count_active_into(9), 1);
    t.upsert(3, 9, true);
    assert_eq!(t.count_active_into(9), 2);
}

#[test]
fn edge_table_removes_a_target() {
    let mut t = EdgeTable::new();
    t.upsert(1, 9, true);
    t.upsert(1, 8, true);
    t.upsert(2, 9, false);
    t.upsert(2, 7, true);
    t.remove_into(9);
    assert_eq!(
        t.rows,
        vec![Edge { source: 1, target: 8, active: true }, Edge { source: 2, target: 7, active: true }]
    );
    t.remove_into(9);
    assert_eq!(t.rows.len(), 2);
}

#[test]
fn edge_table_with_a_repeated_key_is_inconsistent() {
    let t = EdgeTable {
        rows: vec![
            Edge { source: 1, target: 2, active: true },
            Edge { source: 2, target: 1, active: true },
            Edge { source: 1, target: 2, active: false },
        ],
    };
    assert!(!t.is_consistent());
}
