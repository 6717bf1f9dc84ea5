//! The account rows and the operations of the account store and the follow
//! graph.

use vstd::prelude::*;
use crate::db::{
    follows_reference, has_email, has_user, has_username, lemma_user_named, lemma_user_with_id,
    QueryResult, Store,
};
use crate::edges::{keys_from, Edge};
use crate::errors::DbError;

verus! {

/// One account.
#[derive(Debug)]
pub struct UserEntity {
    pub id: i32,
    pub email: String,
    pub username: String,
    pub bio: Option<String>,
    pub image: Option<String>,
    /// Absent for accounts that were provisioned from outside.
    pub password_hash: Option<String>,
}

/// What registration inserts.
#[derive(Debug)]
pub struct NewUserDTO {
    pub email: String,
    pub password_hash: String,
    pub username: String,
}

/// A change to an account row. `email` and `username` are always written;
/// `bio`, `image` and `password_hash` are written only where present.
#[derive(Debug)]
pub struct UserUpdateDTO {
    pub email: String,
    pub username: String,
    pub bio: Option<String>,
    pub image: Option<String>,
    pub password_hash: Option<String>,
}

/// What a follow or an unfollow writes.
#[derive(Clone, Copy, Debug, PartialEq, Eq, Structural)]
pub struct NewFollowsDTO {
    pub follower_id: i32,
    pub followed_id: i32,
    pub active: bool,
}

/// Copies an optional string.
pub fn clone_opt(s: &Option<String>) -> (r: Option<String>)
    ensures
        r == *s,
{
    match s {
        Some(v) => Some(v.clone()),
        None => None,
    }
}

impl Clone for UserEntity {
    fn clone(&self) -> (r: Self)
        ensures
            r == *self,
    {
        UserEntity {
            id: self.id,
            email: self.email.clone(),
            username: self.username.clone(),
            bio: clone_opt(&self.bio),
            image: clone_opt(&self.image),
            password_hash: clone_opt(&self.password_hash),
        }
    }
}


/// The row that registration inserts under the id `id`.
pub open spec fn registered_row(new_user: NewUserDTO, id: i32) -> UserEntity {
    UserEntity {
        id,
        email: new_user.email,
        username: new_user.username,
        bio: None,
        image: None,
        password_hash: Some(new_user.password_hash),
    }
}

/// The row that an update leaves: `email` and `username` are overwritten,
/// the optional columns only where the change carries a value.
pub open spec fn updated_row(row: UserEntity, change: UserUpdateDTO) -> UserEntity {
    UserEntity {
        id: row.id,
        email: change.email,
        username: change.username,
        bio: if change.bio is Some { change.bio } else { row.bio },
        image: if change.image is Some { change.image } else { row.image },
        password_hash: if change.password_hash is Some {
            change.password_hash
        } else {
            row.password_hash
        },
    }
}

/// Another account than `id` holds the email.
pub open spec fn email_taken_by_other(users: Seq<UserEntity>, email: Seq<char>, id: int) -> bool {
    exists|j: int| 0 <= j < users.len() && (#[trigger] users[j]).email@ == email && users[j].id != id
}

/// Another account than `id` holds the username.
pub open spec fn username_taken_by_other(users: Seq<UserEntity>, name: Seq<char>, id: int) -> bool {
    exists|j: int|
        0 <= j < users.len() && (#[trigger] users[j]).username@ == name && users[j].id != id
}

/// The store differs from `pre` in the account table and its sequence only.
pub open spec fn only_users_changed(pre: Store, post: Store) -> bool {
    post == (Store { users: post.users, next_user_id: post.next_user_id, ..pre })
}

/// The store differs from `pre` in the follow edges only, where the edge
/// from `follower` to `followed` now carries `active`.
pub open spec fn follow_written(
    pre: Store,
    post: Store,
    follower: int,
    followed: int,
    active: bool,
) -> bool {
    &&& post == (Store { follows: post.follows, ..pre })
    &&& post.follows@ == pre.follows@.insert((follower, followed), active)
}

/// The store differs from `pre` in the follow edges only, where the edge
/// from `follower` to `followed` exists now: as it was, or inactive if it
/// was absent.
pub open spec fn follow_materialized(pre: Store, post: Store, follower: int, followed: int) -> bool {
    &&& post == (Store { follows: post.follows, ..pre })
    &&& post.follows@ == if pre.follows@.contains_key((follower, followed)) {
        pre.follows@
    } else {
        pre.follows@.insert((follower, followed), false)
    }
}

/// Accounts that keep their ids keep every reference to them valid.
pub proof fn lemma_ids_kept(before: Seq<UserEntity>, after: Seq<UserEntity>)
    requires
        before.len() <= after.len(),
        forall|i: int| 0 <= i < before.len() ==> (#[trigger] after[i]).id == before[i].id,
    ensures
        forall|id: int| has_user(before, id) ==> has_user(after, id),
{
    assert forall|id: int| has_user(before, id) implies has_user(after, id) by {
        let i = choose|i: int| 0 <= i < before.len() && #[trigger] before[i].id == id;
        assert(after[i].id == id);
    }
}

/// Why the store refuses to register the account, if it does: the id
/// sequence is exhausted, or the email or the username is taken.
pub open spec fn registration_error(store: Store, new_user: NewUserDTO) -> Option<DbError> {
    if store.next_user_id == i32::MAX {
        Some(DbError::SequenceExhausted)
    } else if has_email(store.users@, new_user.email@) || has_username(
        store.users@,
        new_user.username@,
    ) {
        Some(DbError::UniqueViolation)
    } else {
        None
    }
}

/// Why the store refuses to change the account, if it does: no account has
/// the id, or another account holds the new email or username.
pub open spec fn update_error(store: Store, change: UserUpdateDTO, id: int) -> Option<DbError> {
    if !has_user(store.users@, id) {
        Some(DbError::NotFound)
    } else if email_taken_by_other(store.users@, change.email@, id) || username_taken_by_other(
        store.users@,
        change.username@,
        id,
    ) {
        Some(DbError::UniqueViolation)
    } else {
        None
    }
}

/// Registers an account: the row receives the next id of the sequence.
/// Fails with `SequenceExhausted` when no id is left, else with
/// `UniqueViolation` when the email or the username is taken; the store is
/// then unchanged.
pub fn create(store: &mut Store, new_user: NewUserDTO) -> (r: QueryResult<UserEntity>)
    requires
        old(store).wf(),
    ensures
        final(store).wf(),
        match r {
            Ok(_) => registration_error(*old(store), new_user) is None,
            Err(e) => registration_error(*old(store), new_user) == Some(e),
        },
        match r {
            Ok(user) => {
                &&& old(store).next_user_id < i32::MAX
                &&& !has_email(old(store).users@, new_user.email@)
                &&& !has_username(old(store).users@, new_user.username@)
                &&& user == registered_row(new_user, old(store).next_user_id)
                &&& final(store).users@ == old(store).users@.push(user)
                &&& final(store).next_user_id == old(store).next_user_id + 1
                &&& only_users_changed(*old(store), *final(store))
            },
            Err(e) => {
                &&& *final(store) == *old(store)
                &&& if old(store).next_user_id == i32::MAX {
                    e == DbError::SequenceExhausted
                } else {
                    e == DbError::UniqueViolation && (has_email(old(store).users@, new_user.email@)
                        || has_username(old(store).users@, new_user.username@))
                }
            },
        },
{
    if store.next_user_id == i32::MAX {
        return Err(DbError::SequenceExhausted);
    }
    if store.find_user_by_email(&new_user.email).is_some() {
        return Err(DbError::UniqueViolation);
    }
    if store.find_user_by_username(&new_user.username).is_some() {
        return Err(DbError::UniqueViolation);
    }
    let row = UserEntity {
        id: store.next_user_id,
        email: new_user.email,
        username: new_user.username,
        bio: None,
        image: None,
        password_hash: Some(new_user.password_hash),
    };
    let copy = row.clone();
    proof {
        lemma_ids_kept(store.users@, store.users@.push(row));
    }
    store.users.push(row);
    store.next_user_id = store.next_user_id + 1;
    Ok(copy)
}

/// The account with the username, or `NotFound`.
pub fn get_user_by_username(store: &Store, given_username: &String) -> (r: QueryResult<
    UserEntity,
>)
    requires
        store.wf(),
    ensures
        match r {
            Ok(user) => has_username(store.users@, given_username@) && user == store.user_named(
                given_username@,
            ),
            Err(e) => e == DbError::NotFound && !has_username(store.users@, given_username@),
        },
{
    match store.find_user_by_username(given_username) {
        Some(i) => {
            proof {
                lemma_user_named(store, i as int);
            }
            Ok(store.users[i].clone())
        },
        None => Err(DbError::NotFound),
    }
}

/// The account with the id, or `NotFound`.
pub fn get_user_by_id(store: &Store, given_id: &i32) -> (r: QueryResult<UserEntity>)
    requires
        store.wf(),
    ensures
        match r {
            Ok(user) => has_user(store.users@, *given_id as int) && user == store.user_with_id(
                *given_id as int,
            ),
            Err(e) => e == DbError::NotFound && !has_user(store.users@, *given_id as int),
        },
{
    match store.find_user_by_id(*given_id) {
        Some(i) => {
            proof {
                lemma_user_with_id(store, i as int);
            }
            Ok(store.users[i].clone())
        },
        None => Err(DbError::NotFound),
    }
}


/// Whether another account than the one at `keep` holds the email.
fn email_in_use_elsewhere(store: &Store, email: &String, keep: usize) -> (r: bool)
    requires
        store.wf(),
        keep < store.users@.len(),
    ensures
        r == email_taken_by_other(store.users@, email@, store.users@[keep as int].id as int),
{
    let ghost id = store.users@[keep as int].id as int;
    match store.find_user_by_email(email) {
        Some(j) => {
            proof {
                if j != keep {
                    if j < keep {
                        assert(store.users@[j as int].id != store.users@[keep as int].id);
                    } else {
                        assert(store.users@[keep as int].id != store.users@[j as int].id);
                    }
                } else {
                    assert forall|k: int|
                        0 <= k < store.users@.len() && (#[trigger] store.users@[k]).email@
                            == email@ implies store.users@[k].id == id by {
                        if k < keep {
                            assert(store.users@[k].email@ != store.users@[keep as int].email@);
                        } else if keep < k {
                            assert(store.users@[keep as int].email@ != store.users@[k].email@);
                        }
                    }
                }
            }
            j != keep
        },
        None => false,
    }
}

/// Whether another account than the one at `keep` holds the username.
fn username_in_use_elsewhere(store: &Store, name: &String, keep: usize) -> (r: bool)
    requires
        store.wf(),
        keep < store.users@.len(),
    ensures
        r == username_taken_by_other(store.users@, name@, store.users@[keep as int].id as int),
{
    let ghost id = store.users@[keep as int].id as int;
    match store.find_user_by_username(name) {
        Some(j) => {
            proof {
                if j != keep {
                    if j < keep {
                        assert(store.users@[j as int].id != store.users@[keep as int].id);
                    } else {
                        assert(store.users@[keep as int].id != store.users@[j as int].id);
                    }
                } else {
                    assert forall|k: int|
                        0 <= k < store.users@.len() && (#[trigger] store.users@[k]).username@
                            == name@ implies store.users@[k].id == id by {
                        if k < keep {
                            assert(store.users@[k].username@ != store.users@[keep as int].username@);
                        } else if keep < k {
                            assert(store.users@[keep as int].username@ != store.users@[k].username@);
                        }
                    }
                }
            }
            j != keep
        },
        None => false,
    }
}

/// Applies a change to the account with the id and returns the new row.
/// Fails with `NotFound` when no account has the id, and with
/// `UniqueViolation` when another account holds the new email or username;
/// the store is then unchanged.
pub fn update_user(store: &mut Store, user_update_dto: UserUpdateDTO, given_id: &i32) -> (r:
    QueryResult<UserEntity>)
    requires
        old(store).wf(),
    ensures
        final(store).wf(),
        match r {
            Ok(_) => update_error(*old(store), user_update_dto, *given_id as int) is None,
            Err(e) => update_error(*old(store), user_update_dto, *given_id as int) == Some(e),
        },
        match r {
            Ok(user) => {
                &&& has_user(old(store).users@, *given_id as int)
                &&& !email_taken_by_other(
                    old(store).users@,
                    user_update_dto.email@,
                    *given_id as int,
                )
                &&& !username_taken_by_other(
                    old(store).users@,
                    user_update_dto.username@,
                    *given_id as int,
                )
                &&& user == updated_row(old(store).user_with_id(*given_id as int), user_update_dto)
                &&& final(store).user_with_id(*given_id as int) == user
                &&& final(store).users@.len() == old(store).users@.len()
                &&& forall|i: int|
                    0 <= i < old(store).users@.len() ==> #[trigger] final(store).users@[i] == if old(
                        store,
                    ).users@[i].id == *given_id {
                        user
                    } else {
                        old(store).users@[i]
                    }
                &&& only_users_changed(*old(store), *final(store))
                &&& final(store).next_user_id == old(store).next_user_id
            },
            Err(e) => {
                &&& *final(store) == *old(store)
                &&& if !has_user(old(store).users@, *given_id as int) {
                    e == DbError::NotFound
                } else {
                    e == DbError::UniqueViolation && (email_taken_by_other(
                        old(store).users@,
                        user_update_dto.email@,
                        *given_id as int,
                    ) || username_taken_by_other(
                        old(store).users@,
                        user_update_dto.username@,
                        *given_id as int,
                    ))
                }
            },
        },
{
    let i = match store.find_user_by_id(*given_id) {
        Some(i) => i,
        None => {
            return Err(DbError::NotFound);
        },
    };
    if email_in_use_elsewhere(store, &user_update_dto.email, i) {
        return Err(DbError::UniqueViolation);
    }
    if username_in_use_elsewhere(store, &user_update_dto.username, i) {
        return Err(DbError::UniqueViolation);
    }
    proof {
        lemma_user_with_id(store, i as int);
    }
    let current = &store.users[i];
    let row = UserEntity {
        id: current.id,
        email: user_update_dto.email,
        username: user_update_dto.username,
        bio: match user_update_dto.bio {
            Some(v) => Some(v),
            None => clone_opt(&current.bio),
        },
        image: match user_update_dto.image {
            Some(v) => Some(v),
            None => clone_opt(&current.image),
        },
        password_hash: match user_update_dto.password_hash {
            Some(v) => Some(v),
            None => clone_opt(&current.password_hash),
        },
    };
    let copy = row.clone();
    proof {
        let before = store.users@;
        let after = before.update(i as int, row);
        lemma_ids_kept(before, after);
        assert forall|a: int, b: int| 0 <= a < b < after.len() implies (#[trigger] after[a]).email@
            != (#[trigger] after[b]).email@ by {
            if a == i {
                assert(before[b].id != before[i as int].id);
                assert(before[b].email@ != row.email@);
            } else if b == i {
                assert(before[a].id != before[i as int].id);
                assert(before[a].email@ != row.email@);
            } else {
                assert(before[a].email@ != before[b].email@);
            }
        }
        assert forall|a: int, b: int| 0 <= a < b < after.len() implies (
        #[trigger] after[a]).username@ != (#[trigger] after[b]).username@ by {
            if a == i {
                assert(before[b].id != before[i as int].id);
                assert(before[b].username@ != row.username@);
            } else if b == i {
                assert(before[a].id != before[i as int].id);
                assert(before[a].username@ != row.username@);
            } else {
                assert(before[a].username@ != before[b].username@);
            }
        }
        assert forall|a: int, b: int| 0 <= a < b < after.len() implies (#[trigger] after[a]).id
            != (#[trigger] after[b]).id by {
            assert(after[a].id == before[a].id && after[b].id == before[b].id);
        }
        assert forall|a: int| 0 <= a < after.len() implies (#[trigger] after[a]).id < store.next_user_id by {
            assert(after[a].id == before[a].id);
        }
    }
    store.users.set(i, row);
    proof {
        lemma_user_with_id(store, i as int);
        assert forall|k: int| 0 <= k < old(store).users@.len() implies #[trigger] store.users@[k]
            == if old(store).users@[k].id == *given_id {
            copy
        } else {
            old(store).users@[k]
        } by {
            if k != i {
                if k < i {
                    assert(old(store).users@[k].id != old(store).users@[i as int].id);
                } else {
                    assert(old(store).users@[i as int].id != old(store).users@[k].id);
                }
            }
        }
    }
    Ok(copy)
}

/// Resolves the two ends of a follow edge: the follower's id must be an
/// account, and the username must name one.
fn resolve_follow(store: &Store, follower_id: i32, followed_username: &String) -> (r: QueryResult<
    i32,
>)
    requires
        store.wf(),
    ensures
        match r {
            Ok(followed_id) => {
                &&& has_username(store.users@, followed_username@)
                &&& has_user(store.users@, follower_id as int)
                &&& has_user(store.users@, followed_id as int)
                &&& followed_id == store.user_named(followed_username@).id
            },
            Err(e) => e == DbError::NotFound && (!has_username(store.users@, followed_username@)
                || !has_user(store.users@, follower_id as int)),
        },
{
    let followed_id = match store.find_user_by_username(followed_username) {
        Some(i) => {
            proof {
                lemma_user_named(store, i as int);
            }
            store.users[i].id
        },
        None => {
            return Err(DbError::NotFound);
        },
    };
    if store.find_user_by_id(follower_id).is_none() {
        return Err(DbError::NotFound);
    }
    Ok(followed_id)
}

/// Edges between accounts stay valid when one more is written.
proof fn lemma_follow_reference_kept(
    before: Seq<Edge>,
    after: Seq<Edge>,
    users: Seq<UserEntity>,
    source: int,
    target: int,
)
    requires
        follows_reference(before, users),
        has_user(users, source),
        has_user(users, target),
        keys_from(before, after, source, target),
    ensures
        follows_reference(after, users),
{
    assert forall|i: int| 0 <= i < after.len() implies has_user(
        users,
        (#[trigger] after[i]).source as int,
    ) && has_user(users, after[i].target as int) by {
        if i < before.len() && after[i].source == before[i].source && after[i].target
            == before[i].target {
            assert(has_user(users, before[i].source as int));
        }
    }
}

/// Whether the follower actively follows the account with the username.
/// An edge that does not exist yet is created, inactive, and reads as
/// `false`. Fails with `NotFound` when the username or the follower's id
/// names no account; the store is then unchanged.
pub fn get_follows(store: &mut Store, given_follower_id: &i32, given_followed_username: &String) -> (r:
    QueryResult<bool>)
    requires
        old(store).wf(),
    ensures
        final(store).wf(),
        match r {
            Ok(following) => {
                &&& has_username(old(store).users@, given_followed_username@)
                &&& has_user(old(store).users@, *given_follower_id as int)
                &&& following == old(store).is_following(
                    *given_follower_id as int,
                    old(store).user_named(given_followed_username@).id as int,
                )
                &&& follow_materialized(
                    *old(store),
                    *final(store),
                    *given_follower_id as int,
                    old(store).user_named(given_followed_username@).id as int,
                )
            },
            Err(e) => {
                &&& e == DbError::NotFound
                &&& !has_username(old(store).users@, given_followed_username@) || !has_user(
                    old(store).users@,
                    *given_follower_id as int,
                )
                &&& *final(store) == *old(store)
            },
        },
{
    let followed_id = match resolve_follow(store, *given_follower_id, given_followed_username) {
        Ok(id) => id,
        Err(e) => {
            return Err(e);
        },
    };
    let following = store.follows.read_through(*given_follower_id, followed_id);
    proof {
        lemma_follow_reference_kept(
            old(store).follows.rows@,
            store.follows.rows@,
            store.users@,
            *given_follower_id as int,
            followed_id as int,
        );
    }
    Ok(following)
}


/// Writes the flag of the edge from the follower to the account with the
/// username.
fn write_follow(
    store: &mut Store,
    follower_id: i32,
    followed_username: &String,
    active: bool,
) -> (r: QueryResult<()>)
    requires
        old(store).wf(),
    ensures
        final(store).wf(),
        match r {
            Ok(_) => {
                &&& has_username(old(store).users@, followed_username@)
                &&& has_user(old(store).users@, follower_id as int)
                &&& follow_written(
                    *old(store),
                    *final(store),
                    follower_id as int,
                    old(store).user_named(followed_username@).id as int,
                    active,
                )
                &&& final(store).is_following(
                    follower_id as int,
                    old(store).user_named(followed_username@).id as int,
                ) == active
                &&& old(store).follows@.contains_key(
                    (follower_id as int, old(store).user_named(followed_username@).id as int),
                ) && old(store).is_following(
                    follower_id as int,
                    old(store).user_named(followed_username@).id as int,
                ) == active ==> final(store).follows.rows@ == old(store).follows.rows@
            },
            Err(e) => {
                &&& e == DbError::NotFound
                &&& !has_username(old(store).users@, followed_username@) || !has_user(
                    old(store).users@,
                    follower_id as int,
                )
                &&& *final(store) == *old(store)
            },
        },
{
    let followed_id = match resolve_follow(store, follower_id, followed_username) {
        Ok(id) => id,
        Err(e) => {
            return Err(e);
        },
    };
    let edge = NewFollowsDTO { follower_id, followed_id, active };
    store.follows.upsert(edge.follower_id, edge.followed_id, edge.active);
    proof {
        lemma_follow_reference_kept(
            old(store).follows.rows@,
            store.follows.rows@,
            store.users@,
            follower_id as int,
            followed_id as int,
        );
    }
    Ok(())
}

/// Makes the follower follow the account with the username: the edge is
/// inserted if absent and set active otherwise. Following an account that
/// is followed already changes nothing. Following oneself is accepted.
/// Fails with `NotFound` when the username or the follower's id names no
/// account; the store is then unchanged.
pub fn follow(store: &mut Store, given_follower_id: &i32, given_followed_username: &String) -> (r:
    QueryResult<()>)
    requires
        old(store).wf(),
    ensures
        final(store).wf(),
        match r {
            Ok(_) => {
                &&& has_username(old(store).users@, given_followed_username@)
                &&& has_user(old(store).users@, *given_follower_id as int)
                &&& follow_written(
                    *old(store),
                    *final(store),
                    *given_follower_id as int,
                    old(store).user_named(given_followed_username@).id as int,
                    true,
                )
                &&& final(store).is_following(
                    *given_follower_id as int,
                    old(store).user_named(given_followed_username@).id as int,
                )
                &&& old(store).is_following(
                    *given_follower_id as int,
                    old(store).user_named(given_followed_username@).id as int,
                ) ==> final(store).follows.rows@ == old(store).follows.rows@
            },
            Err(e) => {
                &&& e == DbError::NotFound
                &&& !has_username(old(store).users@, given_followed_username@) || !has_user(
                    old(store).users@,
                    *given_follower_id as int,
                )
                &&& *final(store) == *old(store)
            },
        },
{
    write_follow(store, *given_follower_id, given_followed_username, true)
}

/// Makes the follower stop following the account with the username: the
/// edge is kept and set inactive (inserted inactive if absent). Fails with
/// `NotFound` when the username or the follower's id names no account; the
/// store is then unchanged.
pub fn unfollow(store: &mut Store, given_follower_id: &i32, given_followed_username: &String) -> (r:
    QueryResult<()>)
    requires
        old(store).wf(),
    ensures
        final(store).wf(),
        match r {
            Ok(_) => {
                &&& has_username(old(store).users@, given_followed_username@)
                &&& has_user(old(store).users@, *given_follower_id as int)
                &&& follow_written(
                    *old(store),
                    *final(store),
                    *given_follower_id as int,
                    old(store).user_named(given_followed_username@).id as int,
                    false,
                )
                &&& !final(store).is_following(
                    *given_follower_id as int,
                    old(store).user_named(given_followed_username@).id as int,
                )
            },
            Err(e) => {
                &&& e == DbError::NotFound
                &&& !has_username(old(store).users@, given_followed_username@) || !has_user(
                    old(store).users@,
                    *given_follower_id as int,
                )
                &&& *final(store) == *old(store)
            },
        },
{
    write_follow(store, *given_follower_id, given_followed_username, false)
}

} // verus!
