use auth_core::config::{JwtSettings, SecretString};
use auth_core::controller::{login_user, logout_user, refresh_user_token, register_user};
use auth_core::db::InMemoryDb;
use auth_core::errors::AppError;
use auth_core::models::{LoginFormData, RegisterFormData};
use auth_core::password::ServerPwdHasher;
use auth_core::repository::get_user_by_id;

const NOW: u64 = 1_700_000_000;

fn test_settings() -> JwtSettings {
    JwtSettings {
        issuer: "auth-core".to_string(),
        audience: "auth-clients".to_string(),
        access_token_secret: SecretString::new("access-secret-material".to_string()),
        refresh_token_secret: SecretString::new("refresh-secret-material".to_string()),
    }
}

fn token_of(cookie: &str) -> String {
    cookie
        .strip_prefix("rt=")
        .expect("cookie must carry the rt token")
        .split(';')
        .next()
        .unwrap()
        .to_string()
}

fn register_alice(db: &mut InMemoryDb, now: u64) -> (u128, String, String) {
    let input = RegisterFormData {
        username: "alice".to_string(),
        password: "Secret123!".to_string(),
    };
    let (resp, cookie) = register_user(db, &ServerPwdHasher, &test_settings(), input, now).unwrap();
    let rt = token_of(&cookie);
    (resp.id, resp.access_token, rt)
}

#[test]
fn login_a_valid_credentials_is_accepted() {
    let mut db = InMemoryDb::new();
    let (id, _, _) = register_alice(&mut db, NOW);

    let input = LoginFormData {
        username: "alice".to_string(),
        password: "Secret123!".to_string(),
    };
    let (resp, cookie) =
        login_user(&mut db, &ServerPwdHasher, &test_settings(), input, None, NOW + 5).unwrap();

    assert_eq!(resp.id, id);
    assert!(!resp.access_token.is_empty());
    assert!(cookie.starts_with("rt="));
    // the full attribute set the refresh cookie promises
    assert!(cookie.contains("Path=/"));
    assert!(cookie.contains("Secure"));
    assert!(cookie.contains("HttpOnly"));
    assert!(cookie.contains("SameSite=Lax"));
    assert!(cookie.contains("Max-Age=604800"));
}

#[test]
fn an_invalid_username_is_rejected_and_would_return_401() {
    let mut db = InMemoryDb::new();
    register_alice(&mut db, NOW);

    let input = LoginFormData {
        username: "mallory".to_string(),
        password: "Secret123!".to_string(),
    };
    let err =
        login_user(&mut db, &ServerPwdHasher, &test_settings(), input, None, NOW).unwrap_err();
    assert!(matches!(err, AppError::UnauthorizedError(_)));
    assert_eq!(err.status_code(), 401);
}

#[test]
fn an_invalid_password_is_rejected_and_would_return_401() {
    let mut db = InMemoryDb::new();
    register_alice(&mut db, NOW);

    let input = LoginFormData {
        username: "alice".to_string(),
        password: "WrongPass1!".to_string(),
    };
    let err =
        login_user(&mut db, &ServerPwdHasher, &test_settings(), input, None, NOW).unwrap_err();
    assert!(matches!(err, AppError::UnauthorizedError(_)));
    assert_eq!(err.status_code(), 401);
}

#[test]
fn login_returns_400_when_credentials_are_present_but_invalid() {
    let mut db = InMemoryDb::new();
    let input = LoginFormData {
        username: "a-username-of-24-chars-x".to_string(),
        password: "Secret123!".to_string(),
    };
    let err =
        login_user(&mut db, &ServerPwdHasher, &test_settings(), input, None, NOW).unwrap_err();
    assert!(matches!(err, AppError::ValidationError(_)));
    assert_eq!(err.status_code(), 400);
}

#[test]
fn registering_a_taken_username_is_a_storage_error() {
    let mut db = InMemoryDb::new();
    register_alice(&mut db, NOW);
    let input = RegisterFormData {
        username: "alice".to_string(),
        password: "Other123!".to_string(),
    };
    let err =
        register_user(&mut db, &ServerPwdHasher, &test_settings(), input, NOW + 1).unwrap_err();
    assert!(matches!(err, AppError::DbError(_)));
    assert_eq!(err.status_code(), 500);
}

#[test]
fn a_missing_user_is_not_found() {
    let db = InMemoryDb::new();
    let err = get_user_by_id(42, &db).unwrap_err();
    assert!(matches!(err, AppError::NotFoundError(_)));
    assert_eq!(err.status_code(), 404);
}

// The happy path and its aftermath: register, rotate, replay, cascade.
#[test]
fn rotation_happy_path_then_reuse_is_detected() {
    let mut db = InMemoryDb::new();
    let settings = test_settings();
    let (id, a1, r1) = register_alice(&mut db, NOW);
    assert!(!a1.is_empty());

    // refresh(R1) succeeds and mints a different pair
    let (resp2, cookie2) =
        refresh_user_token(&mut db, &settings, Some(r1.clone()), NOW + 10).unwrap();
    let r2 = token_of(&cookie2);
    assert_eq!(resp2.id, id);
    assert_ne!(r2, r1);
    assert_ne!(resp2.access_token, a1);

    // replaying R1 is reuse: unauthorized, and the family is revoked
    let err = refresh_user_token(&mut db, &settings, Some(r1.clone()), NOW + 20).unwrap_err();
    assert!(matches!(err, AppError::UnauthorizedError(_)));

    // the cascade also killed R2
    let err2 = refresh_user_token(&mut db, &settings, Some(r2), NOW + 30).unwrap_err();
    assert!(matches!(err2, AppError::UnauthorizedError(_)));
}

// Two rotations of the same token, as a serialized race: exactly one
// wins, the loser sees unauthorized and total revocation.
#[test]
fn concurrent_refresh_race_has_one_winner() {
    let mut db = InMemoryDb::new();
    let settings = test_settings();
    let (_, _, r1) = register_alice(&mut db, NOW);

    let first = refresh_user_token(&mut db, &settings, Some(r1.clone()), NOW + 10);
    assert!(first.is_ok());
    let (_, cookie2) = first.unwrap();
    let r2 = token_of(&cookie2);

    let second = refresh_user_token(&mut db, &settings, Some(r1), NOW + 11);
    assert!(matches!(second, Err(AppError::UnauthorizedError(_))));

    // total revocation: the winner's token is gone too
    let after = refresh_user_token(&mut db, &settings, Some(r2), NOW + 12);
    assert!(matches!(after, Err(AppError::UnauthorizedError(_))));
}

#[test]
fn refresh_without_a_token_is_unauthorized() {
    let mut db = InMemoryDb::new();
    let err = refresh_user_token(&mut db, &test_settings(), None, NOW).unwrap_err();
    assert!(matches!(err, AppError::UnauthorizedError(_)));
}

#[test]
fn an_expired_refresh_token_is_consumed_and_refused() {
    let mut db = InMemoryDb::new();
    let settings = test_settings();
    let (_, _, r1) = register_alice(&mut db, NOW);
    let life = auth_core::jwt::REFRESH_TOKEN_LIFE_SECS;

    let err = refresh_user_token(&mut db, &settings, Some(r1.clone()), NOW + life).unwrap_err();
    assert!(matches!(err, AppError::UnauthorizedError(_)));

    // the row was deleted lazily, so the replay takes the reuse path,
    // where the expired signature no longer verifies
    let err2 = refresh_user_token(&mut db, &settings, Some(r1), NOW + life).unwrap_err();
    assert!(matches!(err2, AppError::UnauthorizedError(_)));
}

#[test]
fn logout_is_idempotent_with_a_cleared_cookie() {
    let mut db = InMemoryDb::new();
    let (_, _, r1) = register_alice(&mut db, NOW);

    let c1 = logout_user(&mut db, Some(r1.clone())).unwrap();
    let c2 = logout_user(&mut db, Some(r1)).unwrap();
    assert_eq!(c1, c2);
    assert!(c1.starts_with("rt=;"));
    assert!(c1.contains("Max-Age=0"));

    let c3 = logout_user(&mut db, None).unwrap();
    assert_eq!(c3, c1);
}

#[test]
fn a_logged_out_token_cannot_refresh() {
    let mut db = InMemoryDb::new();
    let settings = test_settings();
    let (_, _, r1) = register_alice(&mut db, NOW);
    logout_user(&mut db, Some(r1.clone())).unwrap();
    let err = refresh_user_token(&mut db, &settings, Some(r1), NOW + 1).unwrap_err();
    assert!(matches!(err, AppError::UnauthorizedError(_)));
}

#[test]
fn login_with_a_stale_cookie_consumes_the_old_row() {
    let mut db = InMemoryDb::new();
    let settings = test_settings();
    let (_, _, r1) = register_alice(&mut db, NOW);

    // log in again, presenting the still-stored R1: it is consumed
    let input = LoginFormData {
        username: "alice".to_string(),
        password: "Secret123!".to_string(),
    };
    let (_, cookie2) =
        login_user(&mut db, &ServerPwdHasher, &settings, input, Some(r1.clone()), NOW + 5)
            .unwrap();
    let r2 = token_of(&cookie2);

    // the fresh token works; the consumed one does not
    assert!(refresh_user_token(&mut db, &settings, Some(r2), NOW + 6).is_ok());
    let err = refresh_user_token(&mut db, &settings, Some(r1), NOW + 7).unwrap_err();
    assert!(matches!(err, AppError::UnauthorizedError(_)));
}

#[test]
fn login_with_an_unknown_cookie_revokes_the_family() {
    let mut db = InMemoryDb::new();
    let settings = test_settings();
    let (_, _, r1) = register_alice(&mut db, NOW);

    // present a cookie that is not on record: precautionary revocation
    let input = LoginFormData {
        username: "alice".to_string(),
        password: "Secret123!".to_string(),
    };
    let (_, cookie2) = login_user(
        &mut db,
        &ServerPwdHasher,
        &settings,
        input,
        Some("not-on-record".to_string()),
        NOW + 5,
    )
    .unwrap();

    // the fresh token still works; R1 was revoked by the precaution
    assert!(refresh_user_token(&mut db, &settings, Some(token_of(&cookie2)), NOW + 6).is_ok());
    let err = refresh_user_token(&mut db, &settings, Some(r1), NOW + 7).unwrap_err();
    assert!(matches!(err, AppError::UnauthorizedError(_)));
}
