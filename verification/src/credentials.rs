//! Normalizes and validates raw username/password input into a
//! verified domain value before any store interaction.
//!
//! A field is accepted exactly when it is non-empty after trimming and
//! at most [`MAX_FIELD_GRAPHEMES`] extended grapheme clusters long —
//! grapheme-counted, not byte- or code-point-counted, so multi-byte
//! scripts are measured correctly.

use vstd::prelude::*;

use crate::errors::AppError;
use crate::models::{LoginFormData, RegisterFormData};
use unicode_segmentation::UnicodeSegmentation;

verus! {

/// Largest accepted field length, in extended grapheme clusters.
pub const MAX_FIELD_GRAPHEMES: usize = 12;

/// Number of extended grapheme clusters in a string: a function of the
/// characters alone.
pub uninterp spec fn grapheme_count_of(s: Seq<char>) -> nat;

/// The characters left after removing leading and trailing whitespace:
/// a function of the characters alone.
pub uninterp spec fn trimmed_of(s: Seq<char>) -> Seq<char>;

/// Relies on unicode_segmentation::UnicodeSegmentation::graphemes with
/// extended clusters: the count depends on the characters alone.
#[verifier::external_body]
fn count_graphemes(s: &str) -> (n: usize)
    ensures
        n == grapheme_count_of(s@),
{
    s.graphemes(true).count()
}

/// Relies on str::trim: it removes leading and trailing whitespace,
/// and the result depends on the characters alone.
#[verifier::external_body]
fn trimmed(s: &str) -> (r: String)
    ensures
        r@ == trimmed_of(s@),
{
    s.trim().to_string()
}

/// A field is valid when, after trimming, it is non-empty and no
/// longer than the grapheme limit.
pub open spec fn valid_field(s: Seq<char>) -> bool {
    &&& trimmed_of(s).len() > 0
    &&& grapheme_count_of(trimmed_of(s)) <= MAX_FIELD_GRAPHEMES
}

/// A validated username/password pair. Produced only by successful
/// validation, never directly from untrusted input.
pub struct Credentials {
    pub username: String,
    pub password: String,
}

/// Both fields of a credentials pair are valid.
pub open spec fn valid_credentials(username: Seq<char>, password: Seq<char>) -> bool {
    valid_field(username) && valid_field(password)
}

/// Accepts exactly the valid usernames.
pub fn parse_username(v: &str) -> (r: Result<(), AppError>)
    ensures
        r is Ok <==> valid_field(v@),
        r is Err ==> r matches Err(AppError::ValidationError(_)),
{
    let t = trimmed(v);
    let is_empty = t.as_str().is_empty();
    let is_too_long = count_graphemes(t.as_str()) > MAX_FIELD_GRAPHEMES;
    if is_empty || is_too_long {
        Err(AppError::ValidationError("Invalid Username".to_owned()))
    } else {
        Ok(())
    }
}

/// Accepts exactly the valid passwords.
pub fn parse_password(v: &str) -> (r: Result<(), AppError>)
    ensures
        r is Ok <==> valid_field(v@),
        r is Err ==> r matches Err(AppError::ValidationError(_)),
{
    let t = trimmed(v);
    let is_empty = t.as_str().is_empty();
    let is_too_long = count_graphemes(t.as_str()) > MAX_FIELD_GRAPHEMES;
    if is_empty || is_too_long {
        Err(AppError::ValidationError("Invalid Password".to_owned()))
    } else {
        Ok(())
    }
}

impl Credentials {
    /// Accepts exactly the pairs whose fields are both valid.
    pub fn validate(&self) -> (r: Result<(), AppError>)
        ensures
            r is Ok <==> valid_credentials(self.username@, self.password@),
            r is Err ==> r matches Err(AppError::ValidationError(_)),
    {
        parse_username(self.username.as_str())?;
        parse_password(self.password.as_str())?;
        Ok(())
    }

    /// Validates raw login input into a credentials value.
    pub fn try_from_login(value: LoginFormData) -> (r: Result<Credentials, AppError>)
        ensures
            r is Ok <==> valid_credentials(value.username@, value.password@),
            r matches Ok(c) ==> c.username@ == value.username@ && c.password@ == value.password@,
            r is Err ==> r matches Err(AppError::ValidationError(_)),
    {
        let LoginFormData { username, password } = value;
        let credentials = Credentials { username, password };
        match credentials.validate() {
            Ok(()) => Ok(credentials),
            Err(e) => Err(e),
        }
    }

    /// Validates raw registration input into a credentials value.
    pub fn try_from_register(value: RegisterFormData) -> (r: Result<Credentials, AppError>)
        ensures
            r is Ok <==> valid_credentials(value.username@, value.password@),
            r matches Ok(c) ==> c.username@ == value.username@ && c.password@ == value.password@,
            r is Err ==> r matches Err(AppError::ValidationError(_)),
    {
        let RegisterFormData { username, password } = value;
        let credentials = Credentials { username, password };
        match credentials.validate() {
            Ok(()) => Ok(credentials),
            Err(e) => Err(e),
        }
    }
}

} // verus!
