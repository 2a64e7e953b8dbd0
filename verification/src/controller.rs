//! The session orchestrator: the login, register, refresh and logout
//! use cases, sequenced into the rotation protocol.
//!
//! Rotation is strictly one-shot: every successful refresh consumes the
//! presented row and mints a successor, so a stolen refresh token, once
//! replayed, turns the legitimate holder's next attempt into a
//! "not found" event that revokes the whole token family.

use vstd::prelude::*;

use crate::config::JwtSettings;
use crate::credentials::{valid_credentials, Credentials};
use crate::db::{tokens_without_user, InMemoryDb};
use crate::errors::AppError;
use crate::jwt::{
    decode_jwt, generate_jwt, issued_under, jwt_claims_of, spec_issued_claims, spec_secret,
    spec_verdict, ClaimsView, TokenError, REFRESH_TOKEN_LIFE_SECS,
};
use crate::models::LoginFormData;
use crate::models::RegisterFormData;
use crate::password::{pwd_matches, PwdHasher};
use crate::repository::{
    add_refresh_token_by_user_id, create_user, delete_all_refresh_token_by_user_id,
    delete_refresh_token_by_token, get_user_by_id, get_user_tokens_by_token, validate_credentials,
};

verus! {

/// How long the refresh cookie lives: 7 days, in seconds.
pub const REFRESH_COOKIE_MAX_AGE_SECS: u64 = 604800;

/// What a successful use case hands back beside the refresh cookie.
#[derive(Debug)]
pub struct AuthResponse {
    pub id: u128,
    pub access_token: String,
}

/// The Set-Cookie text of the "rt" cookie for a token and max-age:
/// a function of its arguments alone.
pub uninterp spec fn cookie_text_of(token: Seq<char>, max_age_secs: int) -> Seq<char>;

/// Relies on cookie's CookieBuilder and Cookie's Display: a Set-Cookie
/// value for the "rt" cookie — path "/", secure, http-only,
/// SameSite=Lax, the given max-age — depending on its arguments alone.
#[verifier::external_body]
fn build_rt_cookie(token: &str, max_age_secs: u64) -> (r: String)
    ensures
        r@ == cookie_text_of(token@, max_age_secs as int),
{
    cookie::Cookie::build(("rt", token))
        .path("/")
        .secure(true)
        .http_only(true)
        .same_site(cookie::SameSite::Lax)
        .max_age(cookie::time::Duration::seconds(max_age_secs as i64))
        .build()
        .to_string()
}

/// Issues the access/refresh pair a fresh session gets.
pub fn generate_auth_tokens(user_id: u128, jwt_settings: &JwtSettings, now: u64) -> (r: Result<
    (String, String),
    AppError,
>)
    requires
        now + REFRESH_TOKEN_LIFE_SECS <= u64::MAX,
    ensures
        r is Ok,
        r matches Ok((at, rt)) ==> issued_under(
            at@,
            spec_issued_claims(user_id, *jwt_settings, false, now),
            spec_secret(*jwt_settings, false),
        ) && issued_under(
            rt@,
            spec_issued_claims(user_id, *jwt_settings, true, now),
            spec_secret(*jwt_settings, true),
        ),
{
    let at = match generate_jwt(user_id, jwt_settings, false, now) {
        Ok(t) => t,
        Err(e) => {
            return Err(e);
        },
    };
    let rt = match generate_jwt(user_id, jwt_settings, true, now) {
        Ok(t) => t,
        Err(e) => {
            return Err(e);
        },
    };
    Ok((at, rt))
}

/// What login does to the token table before storing the new row: a
/// presented stale cookie is looked up; a matching row is consumed; a
/// token no longer on record is treated as potential reuse and every
/// token of the authenticated user is revoked as a precaution.
pub open spec fn login_cleanup(
    tokens: Map<Seq<char>, int>,
    user_id: int,
    presented: Option<String>,
) -> Map<Seq<char>, int> {
    match presented {
        Option::None => tokens,
        Option::Some(t) => if tokens.dom().contains(t@) {
            tokens.remove(t@)
        } else {
            tokens_without_user(tokens, user_id)
        },
    }
}

/// Everything login promises, as a relation between the store before
/// and after, the inputs, and the outcome.
pub open spec fn login_rel(
    pre: InMemoryDb,
    post: InMemoryDb,
    input: LoginFormData,
    presented: Option<String>,
    s: JwtSettings,
    now: u64,
    r: Result<(AuthResponse, String), AppError>,
) -> bool {
    &&& post.users() == pre.users()
    &&& match r {
        Ok((resp, cookie)) => {
            &&& valid_credentials(input.username@, input.password@)
            &&& pre.users().contains_key(resp.id as int)
            &&& pre.users()[resp.id as int].username == input.username@
            &&& pwd_matches(input.password@, pre.users()[resp.id as int].password)
            &&& issued_under(
                resp.access_token@,
                spec_issued_claims(resp.id, s, false, now),
                spec_secret(s, false),
            )
            &&& exists|rt: Seq<char>|
                {
                    &&& #[trigger] issued_under(
                        rt,
                        spec_issued_claims(resp.id, s, true, now),
                        spec_secret(s, true),
                    )
                    &&& cookie@ == cookie_text_of(rt, REFRESH_COOKIE_MAX_AGE_SECS as int)
                    &&& !login_cleanup(pre.tokens(), resp.id as int, presented).dom().contains(rt)
                    &&& post.tokens() == login_cleanup(
                        pre.tokens(),
                        resp.id as int,
                        presented,
                    ).insert(rt, resp.id as int)
                }
        },
        Err(AppError::ValidationError(_)) => {
            &&& !valid_credentials(input.username@, input.password@)
            &&& post.tokens() == pre.tokens()
        },
        Err(AppError::UnauthorizedError(_)) => {
            &&& valid_credentials(input.username@, input.password@)
            &&& forall|uid: int|
                pre.users().contains_key(uid) && #[trigger] pre.users()[uid].username
                    == input.username@ ==> !pwd_matches(input.password@, pre.users()[uid].password)
            &&& post.tokens() == pre.tokens()
        },
        Err(AppError::UnexpectedError(_)) => false,
        Err(AppError::DbError(_)) => {
            // the freshly minted token string collided with a stored row
            &&& valid_credentials(input.username@, input.password@)
            &&& exists|uid: int|
                {
                    &&& #[trigger] pre.users().contains_key(uid)
                    &&& pre.users()[uid].username == input.username@
                    &&& pwd_matches(input.password@, pre.users()[uid].password)
                    &&& post.tokens() == login_cleanup(pre.tokens(), uid, presented)
                    &&& exists|rt: Seq<char>|
                        {
                            &&& #[trigger] issued_under(
                                rt,
                                spec_issued_claims(uid as u128, s, true, now),
                                spec_secret(s, true),
                            )
                            &&& login_cleanup(pre.tokens(), uid, presented).dom().contains(rt)
                        }
                }
        },
        Err(AppError::NotFoundError(_)) => false,
    }
}

/// Logs a user in: validates, authenticates, issues a fresh pair,
/// cleans up any stale presented cookie, and stores the new refresh
/// row.
pub fn login_user(
    db: &mut InMemoryDb,
    pwd_hasher: &impl PwdHasher,
    jwt_settings: &JwtSettings,
    input: LoginFormData,
    presented_rt: Option<String>,
    now: u64,
) -> (r: Result<(AuthResponse, String), AppError>)
    requires
        old(db).wf(),
        now + REFRESH_TOKEN_LIFE_SECS <= u64::MAX,
    ensures
        final(db).wf(),
        login_rel(*old(db), *final(db), input, presented_rt, *jwt_settings, now, r),
{
    let credentials = match Credentials::try_from_login(LoginFormData {
        username: input.username.clone(),
        password: input.password.clone(),
    }) {
        Ok(c) => c,
        Err(e) => {
            return Err(e);
        },
    };
    let id = match validate_credentials(&credentials, db, pwd_hasher) {
        Ok(i) => i,
        Err(e) => {
            return Err(e);
        },
    };
    let pair = match generate_auth_tokens(id, jwt_settings, now) {
        Ok(p) => p,
        Err(e) => {
            return Err(e);
        },
    };
    let (at, rt) = pair;
    match &presented_rt {
        Some(data) => {
            let token_data = match get_user_tokens_by_token(data, db) {
                Ok(t) => t,
                Err(e) => {
                    return Err(e);
                },
            };
            if token_data.is_none() {
                match delete_all_refresh_token_by_user_id(id, db) {
                    Ok(()) => (),
                    Err(e) => {
                        return Err(e);
                    },
                };
                proof {
                    assert(db.tokens() =~= login_cleanup(
                        old(db).tokens(),
                        id as int,
                        presented_rt,
                    ));
                }
            } else {
                match delete_refresh_token_by_token(data, db) {
                    Ok(()) => (),
                    Err(e) => {
                        return Err(e);
                    },
                };
            }
        },
        None => (),
    }
    match add_refresh_token_by_user_id(&rt, id, db, now) {
        Ok(()) => (),
        Err(e) => {
            proof {
                let uid: int = id as int;
                assert(uid as u128 == id);
                assert(issued_under(
                    rt@,
                    spec_issued_claims(uid as u128, *jwt_settings, true, now),
                    spec_secret(*jwt_settings, true),
                ));
                assert(login_cleanup(old(db).tokens(), uid, presented_rt).dom().contains(rt@));
                assert(db.tokens() =~= login_cleanup(old(db).tokens(), uid, presented_rt));
                assert(exists|rt_: Seq<char>|
                    {
                        &&& #[trigger] issued_under(
                            rt_,
                            spec_issued_claims(uid as u128, *jwt_settings, true, now),
                            spec_secret(*jwt_settings, true),
                        )
                        &&& login_cleanup(old(db).tokens(), uid, presented_rt).dom().contains(rt_)
                    });
            }
            return Err(e);
        },
    };
    let cookie = build_rt_cookie(rt.as_str(), REFRESH_COOKIE_MAX_AGE_SECS);
    let r = Ok((AuthResponse { id, access_token: at }, cookie));
    proof {
        assert(login_rel(*old(db), *db, input, presented_rt, *jwt_settings, now, r));
    }
    r
}

/// Everything registration promises.
pub open spec fn register_rel(
    pre: InMemoryDb,
    post: InMemoryDb,
    input: RegisterFormData,
    s: JwtSettings,
    now: u64,
    r: Result<(AuthResponse, String), AppError>,
) -> bool {
    match r {
        Ok((resp, cookie)) => {
            &&& valid_credentials(input.username@, input.password@)
            &&& !pre.users().contains_key(resp.id as int)
            &&& forall|uid: int|
                pre.users().contains_key(uid) ==> #[trigger] pre.users()[uid].username
                    != input.username@
            &&& post.users().contains_key(resp.id as int)
            &&& post.users()[resp.id as int].username == input.username@
            &&& pwd_matches(input.password@, post.users()[resp.id as int].password)
            &&& post.users() == pre.users().insert(
                resp.id as int,
                post.users()[resp.id as int],
            )
            &&& issued_under(
                resp.access_token@,
                spec_issued_claims(resp.id, s, false, now),
                spec_secret(s, false),
            )
            &&& exists|rt: Seq<char>|
                {
                    &&& #[trigger] issued_under(
                        rt,
                        spec_issued_claims(resp.id, s, true, now),
                        spec_secret(s, true),
                    )
                    &&& cookie@ == cookie_text_of(rt, REFRESH_COOKIE_MAX_AGE_SECS as int)
                    &&& !pre.tokens().dom().contains(rt)
                    &&& post.tokens() == pre.tokens().insert(rt, resp.id as int)
                }
        },
        Err(AppError::ValidationError(_)) => {
            &&& !valid_credentials(input.username@, input.password@)
            &&& post.users() == pre.users()
            &&& post.tokens() == pre.tokens()
        },
        Err(AppError::UnexpectedError(_)) => {
            // only the salted hash can fail, before any store write
            &&& valid_credentials(input.username@, input.password@)
            &&& post.users() == pre.users()
            &&& post.tokens() == pre.tokens()
        },
        Err(AppError::DbError(_)) => {
            // the identity insert hit a constraint, or the user was
            // created and the freshly minted token string collided
            &&& valid_credentials(input.username@, input.password@)
            &&& post.tokens() == pre.tokens()
            &&& (post.users() == pre.users() || exists|uid: int|
                {
                    &&& !pre.users().contains_key(uid)
                    &&& #[trigger] post.users().contains_key(uid)
                    &&& post.users()[uid].username == input.username@
                    &&& post.users() == pre.users().insert(uid, post.users()[uid])
                    &&& exists|rt: Seq<char>|
                        {
                            &&& #[trigger] issued_under(
                                rt,
                                spec_issued_claims(uid as u128, s, true, now),
                                spec_secret(s, true),
                            )
                            &&& pre.tokens().dom().contains(rt)
                        }
                })
        },
        _ => false,
    }
}

/// Registers a user: validates, creates the identity, issues a fresh
/// pair, and stores the refresh row.
pub fn register_user(
    db: &mut InMemoryDb,
    pwd_hasher: &impl PwdHasher,
    jwt_settings: &JwtSettings,
    input: RegisterFormData,
    now: u64,
) -> (r: Result<(AuthResponse, String), AppError>)
    requires
        old(db).wf(),
        now + REFRESH_TOKEN_LIFE_SECS <= u64::MAX,
    ensures
        final(db).wf(),
        register_rel(*old(db), *final(db), input, *jwt_settings, now, r),
{
    let credentials = match Credentials::try_from_register(RegisterFormData {
        username: input.username.clone(),
        password: input.password.clone(),
    }) {
        Ok(c) => c,
        Err(e) => {
            return Err(e);
        },
    };
    let id = match create_user(&credentials, db, pwd_hasher, now) {
        Ok(i) => i,
        Err(e) => {
            return Err(e);
        },
    };
    let pair = match generate_auth_tokens(id, jwt_settings, now) {
        Ok(p) => p,
        Err(e) => {
            return Err(e);
        },
    };
    let (at, rt) = pair;
    match add_refresh_token_by_user_id(&rt, id, db, now) {
        Ok(()) => (),
        Err(e) => {
            proof {
                let uid: int = id as int;
                assert(uid as u128 == id);
                assert(issued_under(
                    rt@,
                    spec_issued_claims(uid as u128, *jwt_settings, true, now),
                    spec_secret(*jwt_settings, true),
                ));
                assert(old(db).tokens().dom().contains(rt@));
                assert(exists|rt_: Seq<char>|
                    {
                        &&& #[trigger] issued_under(
                            rt_,
                            spec_issued_claims(uid as u128, *jwt_settings, true, now),
                            spec_secret(*jwt_settings, true),
                        )
                        &&& old(db).tokens().dom().contains(rt_)
                    });
            }
            return Err(e);
        },
    };
    let cookie = build_rt_cookie(rt.as_str(), REFRESH_COOKIE_MAX_AGE_SECS);
    Ok((AuthResponse { id, access_token: at }, cookie))
}

/// Everything refresh promises: the rotation protocol, path by path.
pub open spec fn refresh_rel(
    pre: InMemoryDb,
    post: InMemoryDb,
    presented: Option<String>,
    s: JwtSettings,
    now: u64,
    r: Result<(AuthResponse, String), AppError>,
) -> bool {
    match presented {
        Option::None => {
            &&& r matches Err(AppError::UnauthorizedError(_))
            &&& post.users() == pre.users()
            &&& post.tokens() == pre.tokens()
        },
        Option::Some(t) => if !pre.tokens().dom().contains(t@) {
            // Reuse detection: the token is no longer on record.
            match spec_verdict(t@, s, true, now) {
                Result::Ok(c) => if pre.users().contains_key(c.id) {
                    &&& r matches Err(AppError::UnauthorizedError(_))
                    &&& post.tokens() == tokens_without_user(pre.tokens(), c.id)
                    &&& post.users() == pre.users()
                } else {
                    &&& r matches Err(AppError::NotFoundError(_))
                    &&& post.users() == pre.users()
                    &&& post.tokens() == pre.tokens()
                },
                Result::Err(_) => {
                    &&& r matches Err(AppError::UnauthorizedError(_))
                    &&& post.users() == pre.users()
                    &&& post.tokens() == pre.tokens()
                },
            }
        } else {
            let u = pre.tokens()[t@];
            match spec_verdict(t@, s, true, now) {
                Result::Err(TokenError::Expired) => {
                    &&& r matches Err(AppError::UnauthorizedError(_))
                    &&& post.tokens() == pre.tokens().remove(t@)
                    &&& post.users() == pre.users()
                },
                Result::Err(_) => {
                    &&& r matches Err(AppError::UnauthorizedError(_))
                    &&& post.users() == pre.users()
                    &&& post.tokens() == pre.tokens()
                },
                Result::Ok(c) => if c.id != u {
                    &&& r matches Err(AppError::UnauthorizedError(_))
                    &&& post.users() == pre.users()
                    &&& post.tokens() == pre.tokens()
                } else if !pre.users().contains_key(u) {
                    &&& r matches Err(AppError::NotFoundError(_))
                    &&& post.users() == pre.users()
                    &&& post.tokens() == pre.tokens()
                } else {
                    &&& post.users() == pre.users()
                    &&& match r {
                        Ok((resp, cookie)) => {
                            &&& resp.id as int == u
                            &&& issued_under(
                                resp.access_token@,
                                spec_issued_claims(resp.id, s, false, now),
                                spec_secret(s, false),
                            )
                            &&& exists|rt: Seq<char>|
                                {
                                    &&& #[trigger] issued_under(
                                        rt,
                                        spec_issued_claims(resp.id, s, true, now),
                                        spec_secret(s, true),
                                    )
                                    &&& cookie@ == cookie_text_of(
                                        rt,
                                        REFRESH_COOKIE_MAX_AGE_SECS as int,
                                    )
                                    &&& !pre.tokens().remove(t@).dom().contains(rt)
                                    &&& post.tokens() == pre.tokens().remove(t@).insert(rt, u)
                                }
                        },
                        Err(AppError::UnexpectedError(_)) => false,
                        Err(AppError::DbError(_)) => post.tokens() == pre.tokens().remove(t@),
                        Err(_) => false,
                    }
                },
            }
        },
    }
}

/// Rotates a refresh token: requires its presence, treats a token no
/// longer on record as reuse (revoking the whole family), consumes a
/// valid one and mints its successor.
#[verifier::rlimit(50)]
pub fn refresh_user_token(
    db: &mut InMemoryDb,
    jwt_settings: &JwtSettings,
    presented_rt: Option<String>,
    now: u64,
) -> (r: Result<(AuthResponse, String), AppError>)
    requires
        old(db).wf(),
        now + REFRESH_TOKEN_LIFE_SECS <= u64::MAX,
    ensures
        final(db).wf(),
        refresh_rel(*old(db), *final(db), presented_rt, *jwt_settings, now, r),
{
    let rt = match presented_rt {
        Some(data) => data,
        None => {
            return Err(AppError::UnauthorizedError("Refresh token was not found.".to_owned()));
        },
    };
    let row = match get_user_tokens_by_token(&rt, db) {
        Ok(o) => o,
        Err(e) => {
            return Err(e);
        },
    };
    let user_token_data = match row {
        Some(d) => d,
        None => {
            let token_data = match decode_jwt(rt.as_str(), jwt_settings, true, now) {
                Ok(c) => c,
                Err(_) => {
                    return Err(AppError::UnauthorizedError("Invalid jwt token".to_owned()));
                },
            };
            let user = match get_user_by_id(token_data.id, db) {
                Ok(u) => u,
                Err(e) => {
                    return Err(e);
                },
            };
            match delete_all_refresh_token_by_user_id(user.id, db) {
                Ok(()) => (),
                Err(e) => {
                    return Err(e);
                },
            };
            return Err(AppError::UnauthorizedError("Refresh token reuse found.".to_owned()));
        },
    };
    let token_data = match decode_jwt(rt.as_str(), jwt_settings, true, now) {
        Ok(d) => d,
        Err(e) => {
            match e {
                TokenError::Expired => {
                    match delete_refresh_token_by_token(&rt, db) {
                        Ok(()) => (),
                        Err(e2) => {
                            return Err(e2);
                        },
                    };
                },
                _ => (),
            }
            return Err(AppError::UnauthorizedError("Invalid jwt token".to_owned()));
        },
    };
    if user_token_data.user_id != token_data.id {
        return Err(AppError::UnauthorizedError("Invalid jwt token".to_owned()));
    }
    let user = match get_user_by_id(token_data.id, db) {
        Ok(u) => u,
        Err(e) => {
            return Err(e);
        },
    };
    match delete_refresh_token_by_token(&rt, db) {
        Ok(()) => (),
        Err(e) => {
            return Err(e);
        },
    };
    let pair = match generate_auth_tokens(user.id, jwt_settings, now) {
        Ok(p) => p,
        Err(e) => {
            return Err(e);
        },
    };
    let (at, new_rt) = pair;
    match add_refresh_token_by_user_id(&new_rt, token_data.id, db, now) {
        Ok(()) => (),
        Err(e) => {
            return Err(e);
        },
    };
    let cookie = build_rt_cookie(new_rt.as_str(), REFRESH_COOKIE_MAX_AGE_SECS);
    let r = Ok((AuthResponse { id: user.id, access_token: at }, cookie));
    proof {
        let pre = *old(db);
        assert(user.id as int == pre.tokens()[rt@]);
        assert(issued_under(
            new_rt@,
            spec_issued_claims(user.id, *jwt_settings, true, now),
            spec_secret(*jwt_settings, true),
        ));
        assert(cookie@ == cookie_text_of(new_rt@, REFRESH_COOKIE_MAX_AGE_SECS as int));
        assert(!pre.tokens().remove(rt@).dom().contains(new_rt@));
        assert(db.tokens() == pre.tokens().remove(rt@).insert(new_rt@, pre.tokens()[rt@]));
        assert(db.users() == pre.users());
        assert(exists|rt_: Seq<char>|
            {
                &&& #[trigger] issued_under(
                    rt_,
                    spec_issued_claims(user.id, *jwt_settings, true, now),
                    spec_secret(*jwt_settings, true),
                )
                &&& cookie@ == cookie_text_of(rt_, REFRESH_COOKIE_MAX_AGE_SECS as int)
                &&& !pre.tokens().remove(rt@).dom().contains(rt_)
                &&& db.tokens() == pre.tokens().remove(rt@).insert(rt_, pre.tokens()[rt@])
            });
        assert(presented_rt matches Some(p) && p == rt);
        assert(pre.tokens().dom().contains(rt@));
        assert(spec_verdict(rt@, *jwt_settings, true, now) matches Ok(c2) && c2.id == pre.tokens()[
            rt@]);
        assert(pre.users().contains_key(pre.tokens()[rt@]));
        assert(r matches Ok((resp, cookie2)) && resp.id == user.id && cookie2 == cookie);
        assert(refresh_rel(pre, *db, presented_rt, *jwt_settings, now, r));
    }
    r
}

/// Everything logout promises: it always succeeds with a cleared
/// cookie, and at most the presented row is gone.
pub open spec fn logout_rel(
    pre: InMemoryDb,
    post: InMemoryDb,
    presented: Option<String>,
    r: Result<String, AppError>,
) -> bool {
    &&& post.users() == pre.users()
    &&& match presented {
        Option::None => post.tokens() == pre.tokens(),
        Option::Some(t) => post.tokens() == pre.tokens().remove(t@),
    }
    &&& match r {
        Ok(cookie) => cookie@ == cookie_text_of(Seq::empty(), 0),
        Err(_) => false,
    }
}

/// Logs a session out: deletes the presented row if it is still there
/// and answers, in every case, with an immediately expiring cookie.
pub fn logout_user(db: &mut InMemoryDb, presented_rt: Option<String>) -> (r: Result<
    String,
    AppError,
>)
    requires
        old(db).wf(),
    ensures
        final(db).wf(),
        logout_rel(*old(db), *final(db), presented_rt, r),
{
    let empty_rt = build_rt_cookie("", 0);
    proof {
        reveal_strlit("");
        assert(""@ =~= Seq::<char>::empty());
    }
    let rt = match presented_rt {
        Some(data) => data,
        None => {
            return Ok(empty_rt);
        },
    };
    let row = match get_user_tokens_by_token(&rt, db) {
        Ok(o) => o,
        Err(e) => {
            return Err(e);
        },
    };
    if row.is_none() {
        proof {
            assert(db.tokens() =~= old(db).tokens().remove(rt@));
        }
        return Ok(empty_rt);
    }
    match delete_refresh_token_by_token(&rt, db) {
        Ok(()) => (),
        Err(e) => {
            return Err(e);
        },
    };
    Ok(empty_rt)
}

/// Idempotence of logout: called twice with the same, already consumed
/// token, it succeeds both times with a cleared cookie, and the second
/// call changes nothing.
pub proof fn lemma_logout_idempotent(
    db0: InMemoryDb,
    db1: InMemoryDb,
    db2: InMemoryDb,
    t: Option<String>,
    r1: Result<String, AppError>,
    r2: Result<String, AppError>,
)
    requires
        logout_rel(db0, db1, t, r1),
        logout_rel(db1, db2, t, r2),
    ensures
        r1 matches Ok(c1) && c1@ == cookie_text_of(Seq::empty(), 0),
        r2 matches Ok(c2) && c2@ == cookie_text_of(Seq::empty(), 0),
        db2.tokens() == db1.tokens(),
        db2.users() == db0.users(),
{
    match t {
        Option::None => {
        },
        Option::Some(tok) => {
            assert(db1.tokens().remove(tok@) =~= db1.tokens());
        },
    }
}

/// Rotation exclusivity: after a successful refresh of `t`, presenting
/// `t` again fails as unauthorized and revokes every token of its
/// subject. The successor differs from `t` because its expiry does: the
/// two were issued at different instants.
pub proof fn lemma_rotation_exclusivity(
    db0: InMemoryDb,
    db1: InMemoryDb,
    db2: InMemoryDb,
    t: String,
    s: JwtSettings,
    now1: u64,
    now2: u64,
    r1: Result<(AuthResponse, String), AppError>,
    r2: Result<(AuthResponse, String), AppError>,
)
    requires
        refresh_rel(db0, db1, Some(t), s, now1, r1),
        r1 is Ok,
        refresh_rel(db1, db2, Some(t), s, now2, r2),
        // the presented token predates this rotation, and is itself
        // still within its life at the second call
        forall|c: ClaimsView|
            jwt_claims_of(t@, spec_secret(s, true)) == Some(c) ==> c.exp != crate::jwt::spec_expiry(
                now1,
                true,
            ) && c.exp > now2,
    ensures
        r2 matches Err(AppError::UnauthorizedError(_)),
        exists|c: ClaimsView|
            {
                &&& jwt_claims_of(t@, spec_secret(s, true)) == Some(c)
                &&& db2.tokens() == tokens_without_user(db1.tokens(), c.id)
                &&& db2.users() == db1.users()
            },
{
    let c = spec_verdict(t@, s, true, now1)->Ok_0;
    let u = db0.tokens()[t@];
    let resp = r1->Ok_0.0;
    let cookie = r1->Ok_0.1;
    let rt1 = choose|rt: Seq<char>|
        {
            &&& #[trigger] issued_under(
                rt,
                spec_issued_claims(resp.id, s, true, now1),
                spec_secret(s, true),
            )
            &&& cookie@ == cookie_text_of(rt, REFRESH_COOKIE_MAX_AGE_SECS as int)
            &&& !db0.tokens().remove(t@).dom().contains(rt)
            &&& db1.tokens() == db0.tokens().remove(t@).insert(rt, u)
        };
    assert(jwt_claims_of(rt1, spec_secret(s, true)) == Some(
        spec_issued_claims(resp.id, s, true, now1),
    ));
    assert(jwt_claims_of(t@, spec_secret(s, true)) == Some(c));
    assert(c.exp != crate::jwt::spec_expiry(now1, true));
    assert(rt1 != t@);
    assert(!db1.tokens().dom().contains(t@));
    assert(spec_verdict(t@, s, true, now2) == Result::<ClaimsView, TokenError>::Ok(c));
    assert(db1.users().contains_key(c.id));
}

} // verus!
