use auth_core::credentials::Credentials;
use auth_core::credentials::{parse_password, parse_username};
use auth_core::errors::AppError;
use auth_core::randomizer::generate_random_string;

fn generate_test_user() -> Credentials {
    Credentials {
        username: generate_random_string(8),
        password: generate_random_string(8),
    }
}

#[test]
fn a_valid_credential_is_accepted() {
    let credentials = generate_test_user();

    let result = credentials.validate();

    assert!(result.is_ok());
}

#[test]
fn an_empty_username_and_password_is_rejected() {
    for v in 0..1 {
        let mut credentials = generate_test_user();
        if v == 0 {
            credentials.username = "".into();
            let result = credentials.validate();

            assert!(result.is_err());
        }

        if v == 1 {
            credentials.password = "".into();
            let result = credentials.validate();

            assert!(result.is_err());
        }
    }
}

#[test]
fn a_long_username_is_rejected() {
    let mut credentials = generate_test_user();
    let test_username = vec![generate_random_string(14), "انفسكم".repeat(12)];

    for v in test_username.iter() {
        credentials.username = v.to_string();

        let result = credentials.validate();
        assert!(result.is_err());
    }
}

#[test]
fn a_long_password_is_rejected() {
    let mut credentials = generate_test_user();
    let test_password = vec![generate_random_string(14), "انفسكم".repeat(12)];

    for v in test_password.iter() {
        credentials.password = v.to_string();

        let result = credentials.validate();
        assert!(result.is_err());
    }
}

#[test]
fn a_twelve_grapheme_field_is_accepted() {
    // exactly at the limit, in ASCII and in a combining-mark script
    assert!(parse_username(&generate_random_string(12)).is_ok());
    assert!(parse_password(&generate_random_string(12)).is_ok());
    // twelve grapheme clusters, far more code points and bytes
    let composed = "े".repeat(12);
    assert!(parse_username(&composed).is_ok());
}

#[test]
fn the_limit_is_measured_after_trimming() {
    // 14 characters raw, 12 grapheme clusters once trimmed: valid
    assert!(parse_username(" abcdefghijkl ").is_ok());
    // 13 grapheme clusters after trimming: rejected
    assert!(parse_username("abcdefghijklm").is_err());
    assert!(parse_password(" abcdefghijklm ").is_err());
}

#[test]
fn a_blank_field_is_rejected_after_trim() {
    assert!(parse_username("   ").is_err());
    assert!(parse_password("\t \n").is_err());
}

#[test]
fn a_rejected_field_is_a_validation_error() {
    match parse_username("") {
        Err(AppError::ValidationError(_)) => (),
        _ => panic!("expected a validation error"),
    }
    match parse_password(&generate_random_string(13)) {
        Err(AppError::ValidationError(_)) => (),
        _ => panic!("expected a validation error"),
    }
}

#[test]
fn validation_error_maps_to_status_400() {
    let err = parse_username("").unwrap_err();
    assert_eq!(err.status_code(), 400);
    assert!(err.details().is_none());
}
