use auth_core::credentials::Credentials;
use auth_core::db::InMemoryDb;
use auth_core::errors::AppError;
use auth_core::password::{PwdHasher, ServerPwdHasher};
use auth_core::randomizer::generate_random_string;
use auth_core::repository::{
    add_refresh_token_by_user_id, create_user, delete_all_refresh_token_by_user_id,
    delete_refresh_token_by_token, get_user_tokens_by_token, validate_credentials,
};

const NOW: u64 = 1_700_000_000;

fn generate_test_user() -> Credentials {
    Credentials {
        username: generate_random_string(12),
        password: generate_random_string(12),
    }
}

#[test]
fn repository_a_valid_credentials_is_accepted() {
    let credentials = generate_test_user();
    let mut db = InMemoryDb::new();
    let id = create_user(&credentials, &mut db, &ServerPwdHasher, NOW).unwrap();

    let result = validate_credentials(&credentials, &db, &ServerPwdHasher);

    assert_eq!(result.unwrap(), id);
}

#[test]
fn an_invalid_username_is_rejected() {
    let credentials = generate_test_user();
    let db = InMemoryDb::new();

    let result = validate_credentials(&credentials, &db, &ServerPwdHasher);

    assert!(result.is_err());
}

#[test]
fn an_invalid_password_is_rejected() {
    let mut credentials = generate_test_user();
    let mut db = InMemoryDb::new();
    create_user(&credentials, &mut db, &ServerPwdHasher, NOW).unwrap();

    credentials.password = "Invalid Password".to_string();
    let result = validate_credentials(&credentials, &db, &ServerPwdHasher);

    assert!(result.is_err());
    assert!(matches!(result, Err(AppError::UnauthorizedError(_))));
}

#[test]
fn token_rows_are_stored_found_and_deleted() {
    let mut db = InMemoryDb::new();
    let token = "a-refresh-token".to_string();

    add_refresh_token_by_user_id(&token, 9, &mut db, NOW).unwrap();
    assert_eq!(get_user_tokens_by_token(&token, &db).unwrap().unwrap().user_id, 9);

    // the same token string cannot be stored twice
    let dup = add_refresh_token_by_user_id(&token, 9, &mut db, NOW);
    assert!(matches!(dup, Err(AppError::DbError(_))));

    delete_refresh_token_by_token(&token, &mut db).unwrap();
    assert!(get_user_tokens_by_token(&token, &db).unwrap().is_none());

    // deleting an absent row stays a quiet no-op
    delete_refresh_token_by_token(&token, &mut db).unwrap();
}

#[test]
fn revocation_sweeps_only_one_user() {
    let mut db = InMemoryDb::new();
    let mine_a = "token-mine-a".to_string();
    let mine_b = "token-mine-b".to_string();
    let theirs = "token-theirs".to_string();
    add_refresh_token_by_user_id(&mine_a, 1, &mut db, NOW).unwrap();
    add_refresh_token_by_user_id(&mine_b, 1, &mut db, NOW).unwrap();
    add_refresh_token_by_user_id(&theirs, 2, &mut db, NOW).unwrap();

    delete_all_refresh_token_by_user_id(1, &mut db).unwrap();

    assert!(get_user_tokens_by_token(&mine_a, &db).unwrap().is_none());
    assert!(get_user_tokens_by_token(&mine_b, &db).unwrap().is_none());
    assert_eq!(get_user_tokens_by_token(&theirs, &db).unwrap().unwrap().user_id, 2);
}
