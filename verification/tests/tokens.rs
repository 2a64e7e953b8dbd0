use auth_core::config::{Environment, JwtSettings, SecretString};
use auth_core::errors::AppError;
use auth_core::jwt::{decode_jwt, generate_jwt, TokenError, REFRESH_TOKEN_LIFE_SECS};
use auth_core::password::{PwdHasher, ServerPwdHasher};
use auth_core::randomizer::generate_random_string;

const NOW: u64 = 1_700_000_000;

fn test_settings() -> JwtSettings {
    JwtSettings {
        issuer: "auth-core".to_string(),
        audience: "auth-clients".to_string(),
        access_token_secret: SecretString::new("access-secret-material".to_string()),
        refresh_token_secret: SecretString::new("refresh-secret-material".to_string()),
    }
}

#[test]
fn an_issued_token_verifies_as_its_kind() {
    let settings = test_settings();
    for is_refresh in [false, true] {
        let token = generate_jwt(7, &settings, is_refresh, NOW).unwrap();
        let claims = decode_jwt(&token, &settings, is_refresh, NOW + 10).unwrap();
        assert_eq!(claims.id, 7);
        assert_eq!(claims.iss, "auth-core");
        assert_eq!(claims.aud, "auth-clients");
        let horizon = if is_refresh { REFRESH_TOKEN_LIFE_SECS } else { 720 };
        assert_eq!(claims.exp, NOW + horizon);
    }
}

#[test]
fn a_token_of_one_kind_is_rejected_as_the_other() {
    let settings = test_settings();
    let access = generate_jwt(7, &settings, false, NOW).unwrap();
    let refresh = generate_jwt(7, &settings, true, NOW).unwrap();
    assert_eq!(decode_jwt(&access, &settings, true, NOW).unwrap_err(), TokenError::InvalidToken);
    assert_eq!(decode_jwt(&refresh, &settings, false, NOW).unwrap_err(), TokenError::InvalidToken);
}

#[test]
fn an_aged_out_token_reports_expiry() {
    let settings = test_settings();
    let access = generate_jwt(7, &settings, false, NOW).unwrap();
    // the access horizon is 12 minutes
    assert_eq!(
        decode_jwt(&access, &settings, false, NOW + 720).unwrap_err(),
        TokenError::Expired
    );
    assert!(decode_jwt(&access, &settings, false, NOW + 719).is_ok());
}

#[test]
fn a_foreign_issuer_reports_claims_mismatch() {
    let settings = test_settings();
    let mut foreign = test_settings();
    foreign.issuer = "someone-else".to_string();
    let token = generate_jwt(7, &foreign, false, NOW).unwrap();
    // same secret, different issuer: signed by us, aimed elsewhere
    assert_eq!(
        decode_jwt(&token, &settings, false, NOW).unwrap_err(),
        TokenError::ClaimsMismatch
    );
}

#[test]
fn a_tampered_token_is_invalid() {
    let settings = test_settings();
    let token = generate_jwt(7, &settings, false, NOW).unwrap();
    let mut tampered = token.clone();
    tampered.push('x');
    assert_eq!(
        decode_jwt(&tampered, &settings, false, NOW).unwrap_err(),
        TokenError::InvalidToken
    );
    assert_eq!(
        decode_jwt("not a token", &settings, false, NOW).unwrap_err(),
        TokenError::InvalidToken
    );
}

#[test]
fn a_password_verifies_against_its_own_hash() {
    let hasher = ServerPwdHasher;
    let hash = hasher.hash_password("Secret123!").unwrap();
    assert!(hash.starts_with("$argon2id$"));
    assert!(hasher.verify_password("Secret123!", &hash).is_ok());
    assert!(hasher.verify_password("Secret123?", &hash).is_err());
}

#[test]
fn a_malformed_hash_fails_like_a_mismatch() {
    let hasher = ServerPwdHasher;
    let hash = hasher.hash_password("Secret123!").unwrap();
    let mismatch = hasher.verify_password("WrongPass1!", &hash).unwrap_err();
    let malformed = hasher.verify_password("whatever", "not-a-phc-string").unwrap_err();
    assert!(matches!(malformed, AppError::UnauthorizedError(_)));
    // one fixed message: the failure cause is not revealed
    assert_eq!(mismatch.message(), malformed.message());
    assert_eq!(mismatch.message(), "Invalid credentials.");
}

#[test]
fn two_hashes_of_one_password_differ_by_salt() {
    let hasher = ServerPwdHasher;
    let h1 = hasher.hash_password("pw").unwrap();
    let h2 = hasher.hash_password("pw").unwrap();
    assert_ne!(h1, h2);
    assert!(hasher.verify_password("pw", &h1).is_ok());
    assert!(hasher.verify_password("pw", &h2).is_ok());
}

#[test]
fn random_strings_have_the_asked_length() {
    assert_eq!(generate_random_string(14).chars().count(), 14);
    assert_eq!(generate_random_string(0).chars().count(), 0);
}

#[test]
fn random_strings_are_ascii_alphanumeric() {
    let s = generate_random_string(64);
    assert!(s.chars().all(|c| c.is_ascii_alphanumeric()));
}

#[test]
fn environment_names_round_trip() {
    assert_eq!(Environment::Local.as_str(), "local");
    assert_eq!(Environment::Production.as_str(), "production");
    assert!(matches!(
        Environment::try_from("LOCAL".to_string()),
        Ok(Environment::Local)
    ));
    assert!(matches!(
        Environment::try_from("Production".to_string()),
        Ok(Environment::Production)
    ));
    let err = Environment::try_from("staging".to_string()).unwrap_err();
    assert_eq!(err, "staging is not a valid environment.");
}

#[test]
fn error_variants_surface_their_status_codes() {
    assert_eq!(AppError::NotFoundError("x".into()).status_code(), 404);
    assert_eq!(AppError::UnauthorizedError("x".into()).status_code(), 401);
    assert_eq!(AppError::UnexpectedError("x".into()).status_code(), 400);
    assert_eq!(AppError::ValidationError("x".into()).status_code(), 400);
    assert_eq!(AppError::DbError("x".into()).status_code(), 500);

    let details = AppError::UnauthorizedError("nope".into()).details().unwrap();
    assert_eq!(details.error_code, 401);
    assert_eq!(details.error_type, "UnauthorizedError");
    assert_eq!(details.title, "Unauthorized");
    assert_eq!(details.details, "nope");
    assert!(AppError::DbError("x".into()).details().is_none());
    assert_eq!(AppError::NotFoundError("gone".into()).message(), "gone");
}
