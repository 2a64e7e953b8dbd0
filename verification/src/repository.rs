//! Identity and refresh-token queries over the data access port.

use vstd::prelude::*;

use crate::credentials::Credentials;
use crate::db::InMemoryDb;
use crate::errors::AppError;
use crate::models::{UserData, UserTokenData};
use crate::password::{pwd_matches, PwdHasher};
use crate::randomizer::generate_entity_id;

verus! {

/// Authenticates a credentials pair: looks the username up and checks
/// the password against the stored hash. Unknown username and wrong
/// password fail identically, so a caller cannot tell accounts apart.
/// (An unknown username returns before any hash work, as a timing
/// observer could notice.)
pub fn validate_credentials(
    credentials: &Credentials,
    db: &InMemoryDb,
    pwd_hasher: &impl PwdHasher,
) -> (r: Result<u128, AppError>)
    requires
        db.wf(),
    ensures
        match r {
            Ok(id) => {
                &&& db.users().contains_key(id as int)
                &&& db.users()[id as int].username == credentials.username@
                &&& pwd_matches(credentials.password@, db.users()[id as int].password)
            },
            Err(e) => {
                &&& e matches AppError::UnauthorizedError(_)
                &&& forall|uid: int|
                    db.users().contains_key(uid) && #[trigger] db.users()[uid].username
                        == credentials.username@ ==> !pwd_matches(
                        credentials.password@,
                        db.users()[uid].password,
                    )
            },
        },
{
    proof {
        crate::db::lemma_unique_usernames(*db);
    }
    let looked_up = db.find_user_by_username(&credentials.username);
    let (id, password) = match looked_up {
        Some(data) => data,
        None => {
            return Err(AppError::UnauthorizedError("Invalid Username".to_owned()));
        },
    };
    match pwd_hasher.verify_password(credentials.password.as_str(), password.as_str()) {
        Ok(()) => Ok(id),
        Err(_) => Err(AppError::UnauthorizedError("Invalid Password".to_owned())),
    }
}

/// Creates an identity: generates a fresh time-ordered id, hashes the
/// password, and inserts the row. Fails with a storage error on a
/// constraint violation (duplicate username or id), with an internal
/// error when hashing fails; the store is unchanged on every failure.
pub fn create_user(
    credentials: &Credentials,
    db: &mut InMemoryDb,
    pwd_hasher: &impl PwdHasher,
    now: u64,
) -> (r: Result<u128, AppError>)
    requires
        old(db).wf(),
    ensures
        final(db).wf(),
        match r {
            Ok(id) => {
                &&& !old(db).users().contains_key(id as int)
                &&& forall|uid: int|
                    old(db).users().contains_key(uid) ==> #[trigger] old(db).users()[uid].username
                        != credentials.username@
                &&& final(db).users().contains_key(id as int)
                &&& final(db).users()[id as int].username == credentials.username@
                &&& pwd_matches(credentials.password@, final(db).users()[id as int].password)
                &&& final(db).users()[id as int].created_at == now as int
                &&& final(db).users() == old(db).users().insert(
                    id as int,
                    final(db).users()[id as int],
                )
                &&& final(db).tokens() == old(db).tokens()
            },
            Err(e) => {
                &&& (e matches AppError::UnexpectedError(_) || e matches AppError::DbError(_))
                &&& final(db).users() == old(db).users()
                &&& final(db).tokens() == old(db).tokens()
            },
        },
{
    let id = generate_entity_id();
    let password = match pwd_hasher.hash_password(credentials.password.as_str()) {
        Ok(h) => h,
        Err(e) => {
            return Err(e);
        },
    };
    match db.insert_user(id, credentials.username.clone(), password, now) {
        Ok(()) => Ok(id),
        Err(e) => Err(e),
    }
}

/// Looks a user up by id; absent users surface as not found.
pub fn get_user_by_id(user_id: u128, db: &InMemoryDb) -> (r: Result<UserData, AppError>)
    requires
        db.wf(),
    ensures
        match r {
            Ok(u) => db.users().contains_key(user_id as int) && u.id == user_id,
            Err(e) => {
                &&& e matches AppError::NotFoundError(_)
                &&& !db.users().contains_key(user_id as int)
            },
        },
{
    if db.contains_user(user_id) {
        Ok(UserData { id: user_id })
    } else {
        Err(AppError::NotFoundError("User was not found".to_owned()))
    }
}

/// Looks a refresh token up; the in-memory port cannot fault, so the
/// result is always a row or nothing.
pub fn get_user_tokens_by_token(rt: &String, db: &InMemoryDb) -> (r: Result<
    Option<UserTokenData>,
    AppError,
>)
    requires
        db.wf(),
    ensures
        match r {
            Ok(Some(d)) => db.tokens().contains_key(rt@) && db.tokens()[rt@] == d.user_id as int,
            Ok(None) => !db.tokens().contains_key(rt@),
            Err(_) => false,
        },
{
    match db.find_token(rt) {
        Some(user_id) => Ok(Some(UserTokenData { user_id })),
        None => Ok(None),
    }
}

/// Stores a freshly issued refresh token for a user. Fails with a
/// storage error exactly when the token string is already stored.
pub fn add_refresh_token_by_user_id(token: &String, user_id: u128, db: &mut InMemoryDb, now: u64)
    -> (r: Result<(), AppError>)
    requires
        old(db).wf(),
    ensures
        final(db).wf(),
        final(db).users() == old(db).users(),
        match r {
            Ok(()) => {
                &&& !old(db).tokens().contains_key(token@)
                &&& final(db).tokens() == old(db).tokens().insert(token@, user_id as int)
            },
            Err(e) => {
                &&& e matches AppError::DbError(_)
                &&& old(db).tokens().contains_key(token@)
                &&& final(db).tokens() == old(db).tokens()
            },
        },
{
    let id = generate_entity_id();
    db.insert_token(id, token.clone(), user_id, now)
}

/// Deletes the row holding this token; succeeds as a no-op when none
/// does.
pub fn delete_refresh_token_by_token(token: &String, db: &mut InMemoryDb) -> (r: Result<
    (),
    AppError,
>)
    requires
        old(db).wf(),
    ensures
        final(db).wf(),
        final(db).users() == old(db).users(),
        final(db).tokens() == old(db).tokens().remove(token@),
        r is Ok,
{
    db.delete_token(token);
    Ok(())
}

/// Deletes every refresh token of one user: the cascading revocation.
pub fn delete_all_refresh_token_by_user_id(user_id: u128, db: &mut InMemoryDb) -> (r: Result<
    (),
    AppError,
>)
    requires
        old(db).wf(),
    ensures
        final(db).wf(),
        final(db).users() == old(db).users(),
        final(db).tokens() == crate::db::tokens_without_user(old(db).tokens(), user_id as int),
        r is Ok,
{
    db.delete_tokens_for_user(user_id);
    Ok(())
}

} // verus!
