//! The operations on accounts as a caller sees them: registration, login,
//! profiles and profile updates.

use vstd::prelude::*;
use crate::db::{has_user, has_username, lemma_user_named, Store};
use crate::errors::{fails_with, ErrorKind, FieldError};
use crate::user::auth::{
    get_id_from_token, get_token, identity_at, names_account, names_no_account, parsed_id,
    signed_claims, token_text, viewer, SIGNING_SECRET,
};
use crate::schema::{Context, MutationRoot, QueryRoot, UsersMutation};
use crate::user::db::{
    create, follow, follow_materialized, follow_written, get_follows, get_user_by_id,
    get_user_by_username, unfollow,
    only_users_changed, registered_row, registration_error, update_error, update_user,
    updated_row, NewUserDTO, UserEntity,
};
use crate::user::errors::UserError;
use crate::user::model::{Profile, User};

verus! {

/// Payload to register a user to the app.
#[derive(Debug)]
pub struct NewUser {
    pub email: String,
    pub password: String,
    pub username: String,
}

/// Payload to update a registered user of the app. A field that is absent
/// keeps its current value.
#[derive(Debug)]
pub struct UserUpdateDTO {
    pub email: Option<String>,
    pub password: Option<String>,
    pub username: Option<String>,
    pub image: Option<String>,
    pub bio: Option<String>,
}

/// Payload to authenticate to the app.
#[derive(Debug)]
pub struct AuthPayload {
    pub username: String,
    pub password: String,
}

/// Whether a password matches a credential hash: `None` where the hash is
/// malformed or the password cannot be hashed.
pub uninterp spec fn password_check(password: Seq<char>, hash: Seq<char>) -> Option<bool>;

/// Checks a password against a credential hash with `bcrypt::verify`. The
/// contract gives the outcome its name; a failure of the check reads as
/// `None`.
#[verifier::external_body]
fn verify_password(password: &str, hash: &str) -> (r: Option<bool>)
    ensures
        r == password_check(password@, hash@),
{
    bcrypt::verify(password, hash).ok()
}

/// Hashes a password with `bcrypt::hash` at the default cost, under a salt
/// drawn at random. Two calls give different hashes; the contract claims
/// only that the password matches whatever hash comes out.
#[verifier::external_body]
fn hash_password(password: &str) -> (r: Option<String>)
    ensures
        r matches Some(hash) ==> password_check(password@, hash@) == Some(true),
{
    bcrypt::hash(password, bcrypt::DEFAULT_COST).ok()
}

impl NewUserDTO {
    /// The row to insert for a registration: the password is replaced by
    /// its salted hash. `None` where hashing fails.
    pub fn from(new_user: NewUser) -> (r: Option<NewUserDTO>)
        ensures
            r matches Some(dto) ==> {
                &&& dto.email == new_user.email
                &&& dto.username == new_user.username
                &&& password_check(new_user.password@, dto.password_hash@) == Some(true)
            },
    {
        match hash_password(new_user.password.as_str()) {
            Some(password_hash) => Some(
                NewUserDTO { email: new_user.email, username: new_user.username, password_hash },
            ),
            None => None,
        }
    }
}

/// What a caller sees of an account, with the token given.
pub open spec fn user_of(entity: UserEntity, token: String) -> User {
    User {
        email: entity.email,
        username: entity.username,
        bio: entity.bio,
        image: entity.image,
        token,
    }
}

impl User {
    /// What a caller sees of the account, with the token given.
    pub fn with_token(user_entity: UserEntity, token: String) -> (r: User)
        ensures
            r == user_of(user_entity, token),
    {
        User {
            username: user_entity.username,
            email: user_entity.email,
            bio: user_entity.bio,
            image: user_entity.image,
            token,
        }
    }

    /// What a caller sees of the account, with a token issued now that
    /// names it.
    pub fn from(user_entity: UserEntity) -> (user: User)
        ensures
            user == user_of(user_entity, user.token),
            names_account(user.token@, user_entity.id),
    {
        let token = get_token(user_entity.id);
        User::with_token(user_entity, token)
    }
}

/// The account that a username and a password log in to: the account with
/// the username, where it has a credential hash that the password matches.
pub open spec fn login(store: Store, username: Seq<char>, password: Seq<char>) -> Option<
    UserEntity,
> {
    if has_username(store.users@, username) && store.user_named(username).password_hash is Some
        && password_check(password, store.user_named(username).password_hash->0@) == Some(true) {
        Some(store.user_named(username))
    } else {
        None
    }
}

/// Decides a login from the outcome of the password check: only a check
/// that ran and matched lets the account in.
pub fn verdict(user: UserEntity, check: Option<bool>) -> (r: Result<UserEntity, FieldError>)
    ensures
        check == Some(true) ==> r == Ok::<UserEntity, FieldError>(user),
        check != Some(true) ==> fails_with(r, ErrorKind::InvalidCredentials),
{
    match check {
        Some(true) => Ok(user),
        _ => Err(UserError::InvalidUsernameOrPassword.into_field_error()),
    }
}

/// Checks a username and a password. An unknown username, an account
/// without a credential hash and a password that does not match all fail
/// in the same way, with `InvalidCredentials`.
pub fn check_credentials(store: &Store, auth_payload: &AuthPayload) -> (r: Result<
    UserEntity,
    FieldError,
>)
    requires
        store.wf(),
    ensures
        match login(*store, auth_payload.username@, auth_payload.password@) {
            Some(user) => r == Ok::<UserEntity, FieldError>(user),
            None => fails_with(r, ErrorKind::InvalidCredentials),
        },
{
    let user = match get_user_by_username(store, &auth_payload.username) {
        Ok(user) => user,
        Err(_) => {
            return Err(UserError::InvalidUsernameOrPassword.into_field_error());
        },
    };
    let check = match &user.password_hash {
        Some(hash) => verify_password(auth_payload.password.as_str(), hash.as_str()),
        None => {
            return Err(UserError::InvalidUsernameOrPassword.into_field_error());
        },
    };
    verdict(user, check)
}


impl MutationRoot {
    /// Completes a registration from the hashed row, where hashing gave
    /// one, and the token issued for the id the account will receive.
    /// Where the row is missing the registration fails with `Internal`;
    /// where the email or the username is taken it fails with `Conflict`;
    /// where no id is left it fails with `Internal`. On a failure the store
    /// is unchanged.
    pub fn register_with(context: &mut Context, row: Option<NewUserDTO>, token: String) -> (r:
        Result<User, FieldError>)
        requires
            old(context).store.wf(),
        ensures
            final(context).store.wf(),
            final(context).token == old(context).token,
            match row {
                Some(dto) => match registration_error(old(context).store, dto) {
                    None => {
                        &&& r == Ok::<User, FieldError>(
                            user_of(registered_row(dto, old(context).store.next_user_id), token),
                        )
                        &&& final(context).store.users@ == old(context).store.users@.push(
                            registered_row(dto, old(context).store.next_user_id),
                        )
                        &&& final(context).store.next_user_id == old(context).store.next_user_id
                            + 1
                        &&& only_users_changed(old(context).store, final(context).store)
                    },
                    Some(e) => fails_with(r, ErrorKind::of_db(e)) && final(context).store == old(context).store,
                },
                None => fails_with(r, ErrorKind::Internal) && final(context).store == old(context).store,
            },
    {
        let dto = match row {
            Some(dto) => dto,
            None => {
                return Err(ErrorKind::Internal.into_field_error());
            },
        };
        match create(&mut context.store, dto) {
            Ok(user) => Ok(User::with_token(user, token)),
            Err(e) => Err(FieldError::from_db(e)),
        }
    }

    /// Registers an account: the password is stored as a salted hash, and
    /// the caller receives the account with a token that names it. The
    /// same username and password log in from then on. Fails with
    /// `Conflict` where the email or the username is taken, and with
    /// `Internal` where hashing fails or no id is left; the store is
    /// then unchanged.
    pub fn register_user(context: &mut Context, new_user: NewUser) -> (r: Result<User, FieldError>)
        requires
            old(context).store.wf(),
        ensures
            final(context).store.wf(),
            final(context).token == old(context).token,
            match r {
                Ok(user) => {
                    &&& !crate::db::has_email(old(context).store.users@, new_user.email@)
                    &&& !has_username(old(context).store.users@, new_user.username@)
                    &&& old(context).store.next_user_id < i32::MAX
                    &&& final(context).store.users@ == old(context).store.users@.push(
                        final(context).store.users@.last(),
                    )
                    &&& final(context).store.users@.last().id == old(context).store.next_user_id
                    &&& final(context).store.users@.last().email == new_user.email
                    &&& final(context).store.users@.last().username == new_user.username
                    &&& final(context).store.users@.last().bio is None
                    &&& final(context).store.users@.last().image is None
                    &&& final(context).store.next_user_id == old(context).store.next_user_id + 1
                    &&& only_users_changed(old(context).store, final(context).store)
                    &&& user == user_of(final(context).store.users@.last(), user.token)
                    &&& names_account(user.token@, old(context).store.next_user_id)
                    &&& login(final(context).store, new_user.username@, new_user.password@)
                        == Some(final(context).store.users@.last())
                },
                Err(e) => {
                    &&& final(context).store == old(context).store
                    &&& e.kind == ErrorKind::Conflict || e.kind == ErrorKind::Internal
                    &&& e.kind == ErrorKind::Conflict ==> crate::db::has_email(
                        old(context).store.users@,
                        new_user.email@,
                    ) || has_username(old(context).store.users@, new_user.username@)
                },
            },
    {
        let token = get_token(context.store.next_user_id);
        let row = NewUserDTO::from(new_user);
        let r = MutationRoot::register_with(context, row, token);
        proof {
            if r is Ok {
                let last = context.store.users@.len() - 1;
                lemma_user_named(&context.store, last);
                assert(context.store.users@[last].username@ == new_user.username@);
            }
        }
        r
    }

    /// Logs in: the caller receives the account with a token issued now
    /// that names it. Fails with `InvalidCredentials` where the username is
    /// unknown or the password does not match, in the same way for both;
    /// a username and password that match always log in.
    pub fn authenticate(context: &Context, auth_payload: AuthPayload) -> (r: Result<
        User,
        FieldError,
    >)
        requires
            context.store.wf(),
        ensures
            login(context.store, auth_payload.username@, auth_payload.password@) is Some ==> r is Ok,
            match login(context.store, auth_payload.username@, auth_payload.password@) {
                Some(entity) => r matches Ok(user) && user == user_of(entity, user.token)
                    && names_account(user.token@, entity.id),
                None => fails_with(r, ErrorKind::InvalidCredentials),
            },
    {
        let entity = match check_credentials(&context.store, &auth_payload) {
            Ok(entity) => entity,
            Err(e) => {
                return Err(e);
            },
        };
        Ok(User::from(entity))
    }
}


/// The change that a patch makes to an account: a field that is present
/// overwrites, a field that is absent keeps the current value. `new_hash`
/// is the hash of the new password where the patch carries one.
pub open spec fn patched(
    current: UserEntity,
    patch: UserUpdateDTO,
    new_hash: Option<String>,
) -> crate::user::db::UserUpdateDTO {
    crate::user::db::UserUpdateDTO {
        email: if patch.email is Some {
            patch.email->0
        } else {
            current.email
        },
        username: if patch.username is Some {
            patch.username->0
        } else {
            current.username
        },
        bio: patch.bio,
        image: patch.image,
        password_hash: new_hash,
    }
}

/// Builds the change that a patch makes to an account.
pub fn apply_patch(current: &UserEntity, patch: UserUpdateDTO, new_hash: Option<String>) -> (r:
    crate::user::db::UserUpdateDTO)
    ensures
        r == patched(*current, patch, new_hash),
{
    crate::user::db::UserUpdateDTO {
        email: match patch.email {
            Some(email) => email,
            None => current.email.clone(),
        },
        username: match patch.username {
            Some(username) => username,
            None => current.username.clone(),
        },
        bio: patch.bio,
        image: patch.image,
        password_hash: new_hash,
    }
}

/// The row `after` is the row `before` with the patch applied: fields that
/// are present overwrite, the others are kept, and a new password is
/// stored as a hash that it matches.
pub open spec fn patch_applied(before: UserEntity, after: UserEntity, patch: UserUpdateDTO) -> bool {
    &&& after.id == before.id
    &&& after.email == if patch.email is Some {
        patch.email->0
    } else {
        before.email
    }
    &&& after.username == if patch.username is Some {
        patch.username->0
    } else {
        before.username
    }
    &&& after.bio == if patch.bio is Some {
        patch.bio
    } else {
        before.bio
    }
    &&& after.image == if patch.image is Some {
        patch.image
    } else {
        before.image
    }
    &&& match patch.password {
        Some(password) => after.password_hash is Some && password_check(
            password@,
            after.password_hash->0@,
        ) == Some(true),
        None => after.password_hash == before.password_hash,
    }
}

impl MutationRoot {
    /// Updates the profile of the account with the id. `new_hash` is the
    /// hash of the new password where the patch carries one, and `token`
    /// the token to hand back. Fails with `NotFound` where no account has
    /// the id, and with `Conflict` where another account holds the new
    /// email or username; the store is then unchanged.
    pub fn update_user_as(
        context: &mut Context,
        id: i32,
        patch: UserUpdateDTO,
        new_hash: Option<String>,
        token: String,
    ) -> (r: Result<User, FieldError>)
        requires
            old(context).store.wf(),
        ensures
            final(context).store.wf(),
            final(context).token == old(context).token,
            update_outcome(old(context).store, final(context).store, id, patch, new_hash, token, r),
    {
        let current = match get_user_by_id(&context.store, &id) {
            Ok(current) => current,
            Err(e) => {
                return Err(FieldError::from_db(e));
            },
        };
        let change = apply_patch(&current, patch, new_hash);
        match update_user(&mut context.store, change, &id) {
            Ok(user) => Ok(User::with_token(user, token)),
            Err(e) => Err(FieldError::from_db(e)),
        }
    }

    /// Updates the profile of the caller: fields of the patch that are
    /// present overwrite, the others keep their value, and a new password
    /// is hashed before it is stored. The caller receives the account with
    /// a token issued now. Fails with `Unauthenticated` where the token is
    /// refused, with `NotFound` where the account is gone, with `Conflict`
    /// where another account holds the new email or username, and with
    /// `Internal` where hashing fails; the store is then
    /// unchanged.
    pub fn update_user(context: &mut Context, user_update_dto: UserUpdateDTO) -> (r: Result<
        User,
        FieldError,
    >)
        requires
            old(context).store.wf(),
        ensures
            final(context).store.wf(),
            final(context).token == old(context).token,
            r is Err ==> final(context).store == old(context).store,
            old(context).token is None ==> fails_with(r, ErrorKind::Unauthenticated),
            names_no_account(token_text(old(context).token)) ==> fails_with(
                r,
                ErrorKind::Unauthenticated,
            ),
            r matches Ok(user) ==> {
                &&& token_text(old(context).token) matches Some(text)
                &&& signed_claims(text, SIGNING_SECRET@) matches Some(claims)
                &&& parsed_id(claims.sub) matches Some(id)
                &&& has_user(old(context).store.users@, id as int)
                &&& patch_applied(
                    old(context).store.user_with_id(id as int),
                    final(context).store.user_with_id(id as int),
                    user_update_dto,
                )
                &&& user == user_of(final(context).store.user_with_id(id as int), user.token)
                &&& names_account(user.token@, id)
                &&& only_users_changed(old(context).store, final(context).store)
            },
            exists|now: i64|
                match #[trigger] identity_at(token_text(old(context).token), now) {
                    Some(caller) => (user_update_dto.password is Some && fails_with(
                        r,
                        ErrorKind::Internal,
                    ) && final(context).store == old(context).store) || exists|
                        new_hash: Option<String>,
                        token: String,
                    |
                        {
                            &&& #[trigger] update_outcome(
                                old(context).store,
                                final(context).store,
                                caller,
                                user_update_dto,
                                new_hash,
                                token,
                                r,
                            )
                            &&& names_account(token@, caller)
                            &&& match user_update_dto.password {
                                Some(password) => new_hash matches Some(hash) && password_check(
                                    password@,
                                    hash@,
                                ) == Some(true),
                                None => new_hash is None,
                            }
                        },
                    None => fails_with(r, ErrorKind::Unauthenticated) && final(context).store
                        == old(context).store,
                },
    {
        let id = match get_id_from_token(&context.token) {
            Ok(id) => id,
            Err(e) => {
                return Err(e);
            },
        };
        let new_hash = match &user_update_dto.password {
            Some(password) => match hash_password(password.as_str()) {
                Some(hash) => Some(hash),
                None => {
                    return Err(ErrorKind::Internal.into_field_error());
                },
            },
            None => None,
        };
        let token = get_token(id);
        MutationRoot::update_user_as(context, id, user_update_dto, new_hash, token)
    }
}

/// The profile of an account, as a viewer sees it.
pub open spec fn profile_of(entity: UserEntity, following: bool) -> Profile {
    Profile { username: entity.username, bio: entity.bio, image: entity.image, following }
}

/// Builds the profile of an account for a viewer. Without a viewer no one
/// follows; with one, the follow edge from the viewer is read, and created
/// inactive where it does not exist yet. Fails with `NotFound` where the
/// viewer is no account; the store is then unchanged.
pub(crate) fn profile_for(context: &mut Context, viewer: Option<i32>, entity: UserEntity) -> (r: Result<
    Profile,
    FieldError,
>)
    requires
        old(context).store.wf(),
        has_username(old(context).store.users@, entity.username@),
        old(context).store.user_named(entity.username@) == entity,
    ensures
        final(context).store.wf(),
        final(context).token == old(context).token,
        r is Err ==> final(context).store == old(context).store,
        match viewer {
            None => r == Ok::<Profile, FieldError>(profile_of(entity, false)) && final(context).store == old(context).store,
            Some(v) => if has_user(old(context).store.users@, v as int) {
                &&& r == Ok::<Profile, FieldError>(
                    profile_of(entity, old(context).store.is_following(v as int, entity.id as int)),
                )
                &&& follow_materialized(
                    old(context).store,
                    final(context).store,
                    v as int,
                    entity.id as int,
                )
            } else {
                fails_with(r, ErrorKind::NotFound)
            },
        },
{
    let following = match viewer {
        Some(v) => match get_follows(&mut context.store, &v, &entity.username) {
            Ok(following) => following,
            Err(e) => {
                return Err(FieldError::from_db(e));
            },
        },
        None => false,
    };
    Ok(
        Profile {
            username: entity.username,
            bio: entity.bio,
            image: entity.image,
            following,
        },
    )
}

impl QueryRoot {
    /// The profile of the account with the username, as the viewer sees
    /// it. Fails with `NotFound` where the username or the viewer is no
    /// account; the store is then unchanged.
    pub fn profile_as(context: &mut Context, viewer: Option<i32>, username: String) -> (r: Result<
        Profile,
        FieldError,
    >)
        requires
            old(context).store.wf(),
        ensures
            final(context).store.wf(),
            final(context).token == old(context).token,
            profile_outcome(old(context).store, final(context).store, viewer, username, r),
    {
        let entity = match get_user_by_username(&context.store, &username) {
            Ok(entity) => entity,
            Err(e) => {
                return Err(FieldError::from_db(e));
            },
        };
        profile_for(context, viewer, entity)
    }

    /// The profile of the account with the username, as the caller sees
    /// it; a caller who sent no token follows no one. Fails with
    /// `Unauthenticated` where a token was sent and is refused, and with
    /// `NotFound` where the username or the caller is no account; the
    /// store is then unchanged.
    pub fn profile(context: &mut Context, username: String) -> (r: Result<Profile, FieldError>)
        requires
            old(context).store.wf(),
        ensures
            final(context).store.wf(),
            final(context).token == old(context).token,
            r is Err ==> final(context).store == old(context).store,
            r matches Err(e) ==> e.kind == ErrorKind::NotFound || e.kind
                == ErrorKind::Unauthenticated,
            old(context).token is Some && names_no_account(token_text(old(context).token))
                ==> fails_with(r, ErrorKind::Unauthenticated),
            r matches Ok(profile) ==> has_username(old(context).store.users@, username@)
                && profile == profile_of(
                old(context).store.user_named(username@),
                profile.following,
            ),
            old(context).token is None ==> final(context).store == old(context).store && if has_username(
                old(context).store.users@,
                username@,
            ) {
                r == Ok::<Profile, FieldError>(
                    profile_of(old(context).store.user_named(username@), false),
                )
            } else {
                fails_with(r, ErrorKind::NotFound)
            },
            exists|now: i64|
                match old(context).token {
                    Some(_) => match #[trigger] identity_at(token_text(old(context).token), now) {
                        Some(caller) => profile_outcome(old(context).store, final(context).store, Some(caller), username, r),
                        None => fails_with(r, ErrorKind::Unauthenticated) && final(
                            context
                        ).store == old(context).store,
                    },
                    None => profile_outcome(old(context).store, final(context).store, None, username, r),
                },
    {
        let who = match viewer(&context.token) {
            Ok(who) => who,
            Err(e) => {
                return Err(e);
            },
        };
        QueryRoot::profile_as(context, who, username)
    }
}


impl UsersMutation {
    /// Makes the account follow, or stop following, the account with the
    /// username. The edge is kept in either case; only its flag changes.
    /// Fails with `NotFound` where the username or the follower is no
    /// account; the store is then unchanged.
    pub fn follow_as(context: &mut Context, follower: i32, username: String, active: bool) -> (r:
        Result<(), FieldError>)
        requires
            old(context).store.wf(),
        ensures
            final(context).store.wf(),
            final(context).token == old(context).token,
            follow_outcome(old(context).store, final(context).store, follower, username, active, r),
    {
        let written = if active {
            follow(&mut context.store, &follower, &username)
        } else {
            unfollow(&mut context.store, &follower, &username)
        };
        match written {
            Ok(_) => Ok(()),
            Err(e) => Err(FieldError::from_db(e)),
        }
    }

    /// Makes the caller follow the account with the username. Fails with
    /// `Unauthenticated` where the token is refused, and with `NotFound`
    /// where the username or the caller is no account; the store is then
    /// unchanged.
    pub fn follow(context: &mut Context, username: String) -> (r: Result<(), FieldError>)
        requires
            old(context).store.wf(),
        ensures
            final(context).store.wf(),
            final(context).token == old(context).token,
            r is Err ==> final(context).store == old(context).store,
            old(context).token is None ==> fails_with(r, ErrorKind::Unauthenticated),
            names_no_account(token_text(old(context).token)) ==> fails_with(
                r,
                ErrorKind::Unauthenticated,
            ),
            r matches Err(e) ==> e.kind == ErrorKind::Unauthenticated || e.kind
                == ErrorKind::NotFound,
            r is Ok ==> {
                &&& token_text(old(context).token) matches Some(text)
                &&& signed_claims(text, SIGNING_SECRET@) matches Some(claims)
                &&& parsed_id(claims.sub) matches Some(follower)
                &&& has_username(old(context).store.users@, username@)
                &&& follow_written(
                    old(context).store,
                    final(context).store,
                    follower as int,
                    old(context).store.user_named(username@).id as int,
                    true,
                )
            },
            exists|now: i64|
                match #[trigger] identity_at(token_text(old(context).token), now) {
                    Some(caller) => follow_outcome(old(context).store, final(context).store, caller, username, true, r),
                    None => fails_with(r, ErrorKind::Unauthenticated) && final(context).store == old(context).store,
                },
    {
        let follower = match get_id_from_token(&context.token) {
            Ok(id) => id,
            Err(e) => {
                return Err(e);
            },
        };
        UsersMutation::follow_as(context, follower, username, true)
    }

    /// Makes the caller stop following the account with the username.
    /// Fails with `Unauthenticated` where the token is refused, and with
    /// `NotFound` where the username or the caller is no account; the
    /// store is then unchanged.
    pub fn unfollow(context: &mut Context, username: String) -> (r: Result<(), FieldError>)
        requires
            old(context).store.wf(),
        ensures
            final(context).store.wf(),
            final(context).token == old(context).token,
            r is Err ==> final(context).store == old(context).store,
            old(context).token is None ==> fails_with(r, ErrorKind::Unauthenticated),
            names_no_account(token_text(old(context).token)) ==> fails_with(
                r,
                ErrorKind::Unauthenticated,
            ),
            r matches Err(e) ==> e.kind == ErrorKind::Unauthenticated || e.kind
                == ErrorKind::NotFound,
            r is Ok ==> {
                &&& token_text(old(context).token) matches Some(text)
                &&& signed_claims(text, SIGNING_SECRET@) matches Some(claims)
                &&& parsed_id(claims.sub) matches Some(follower)
                &&& has_username(old(context).store.users@, username@)
                &&& follow_written(
                    old(context).store,
                    final(context).store,
                    follower as int,
                    old(context).store.user_named(username@).id as int,
                    false,
                )
            },
            exists|now: i64|
                match #[trigger] identity_at(token_text(old(context).token), now) {
                    Some(caller) => follow_outcome(old(context).store, final(context).store, caller, username, false, r),
                    None => fails_with(r, ErrorKind::Unauthenticated) && final(context).store == old(context).store,
                },
    {
        let follower = match get_id_from_token(&context.token) {
            Ok(id) => id,
            Err(e) => {
                return Err(e);
            },
        };
        UsersMutation::follow_as(context, follower, username, false)
    }
}

/// What reading the profile of the account with the username for the viewer
/// gives.
pub open spec fn profile_outcome(
    pre: Store,
    post: Store,
    viewer: Option<i32>,
    username: String,
    r: Result<Profile, FieldError>,
) -> bool {
    &&& r is Err ==> post == pre
    &&& if !has_username(pre.users@, username@) {
            fails_with(r, ErrorKind::NotFound)
        } else {
            match viewer {
                None => r == Ok::<Profile, FieldError>(
                    profile_of(pre.user_named(username@), false),
                ) && post == pre,
                Some(v) => if has_user(pre.users@, v as int) {
                    &&& r == Ok::<Profile, FieldError>(
                        profile_of(
                            pre.user_named(username@),
                            pre.is_following(
                                v as int,
                                pre.user_named(username@).id as int,
                            ),
                        ),
                    )
                    &&& follow_materialized(
                        pre,
                        post,
                        v as int,
                        pre.user_named(username@).id as int,
                    )
                } else {
                    fails_with(r, ErrorKind::NotFound)
                },
            }
        }
}

/// What making the account follow, or stop following, the account with the
/// username gives.
pub open spec fn follow_outcome(
    pre: Store,
    post: Store,
    follower: i32,
    username: String,
    active: bool,
    r: Result<(), FieldError>,
) -> bool {
    &&& r is Err ==> post == pre
    &&& if has_username(pre.users@, username@) && has_user(
            pre.users@,
            follower as int,
        ) {
            &&& r is Ok
            &&& follow_written(
                pre,
                post,
                follower as int,
                pre.user_named(username@).id as int,
                active,
            )
            &&& post.is_following(
                follower as int,
                pre.user_named(username@).id as int,
            ) == active
        } else {
            fails_with(r, ErrorKind::NotFound)
        }
}

/// What updating the profile of the account with the id gives, with the
/// hash of the new password and the token to hand back.
pub open spec fn update_outcome(
    pre: Store,
    post: Store,
    id: i32,
    patch: UserUpdateDTO,
    new_hash: Option<String>,
    token: String,
    r: Result<User, FieldError>,
) -> bool {
    &&& r is Err ==> post == pre
    &&& if !has_user(pre.users@, id as int) {
                fails_with(r, ErrorKind::NotFound)
            } else {
                match update_error(
                    pre,
                    patched(pre.user_with_id(id as int), patch, new_hash),
                    id as int,
                ) {
                    Some(e) => fails_with(r, ErrorKind::of_db(e)),
                    None => {
                        &&& r == Ok::<User, FieldError>(
                            user_of(
                                updated_row(
                                    pre.user_with_id(id as int),
                                    patched(
                                        pre.user_with_id(id as int),
                                        patch,
                                        new_hash,
                                    ),
                                ),
                                token,
                            ),
                        )
                        &&& post.user_with_id(id as int) == updated_row(
                            pre.user_with_id(id as int),
                            patched(
                                pre.user_with_id(id as int),
                                patch,
                                new_hash,
                            ),
                        )
                        &&& post.users@.len() == pre.users@.len()
                        &&& forall|i: int|
                            0 <= i < pre.users@.len() && pre.users@[i].id != id ==> #[trigger] post.users@[i] == pre.users@[i]
                        &&& only_users_changed(pre, post)
                    },
                }
            }
}

} // verus!
