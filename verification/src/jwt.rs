//! The token codec: signs and verifies compact claims-bearing tokens.
//!
//! A token embeds issuer, audience, subject id and an expiry of
//! now + 12 minutes (access) or now + 7 weeks (refresh), and is signed
//! with a per-kind symmetric secret. Verification checks the signature
//! with the kind's secret, then issuer, audience and expiry, and tells
//! the failure causes apart: an aged-out token is benign, a tampered or
//! foreign one is suspicious.

use vstd::prelude::*;

use crate::config::JwtSettings;
use crate::errors::AppError;
use jsonwebtoken::{decode, encode, Algorithm, DecodingKey, EncodingKey, Header, Validation};

verus! {

/// Seconds an access token lives: 12 minutes.
pub const ACCESS_TOKEN_LIFE_SECS: u64 = 720;

/// Seconds a refresh token lives: 7 weeks.
pub const REFRESH_TOKEN_LIFE_SECS: u64 = 4233600;

/// The claims embedded in a signed token.
#[derive(Debug)]
pub struct Claims {
    pub iss: String,
    pub aud: String,
    pub exp: u64,
    pub id: u128,
}

/// The claims as mathematical values.
pub struct ClaimsView {
    pub iss: Seq<char>,
    pub aud: Seq<char>,
    pub exp: int,
    pub id: int,
}

impl View for Claims {
    type V = ClaimsView;

    open spec fn view(&self) -> ClaimsView {
        ClaimsView { iss: self.iss@, aud: self.aud@, exp: self.exp as int, id: self.id as int }
    }
}

/// What signature-checked decoding of a token under a secret yields:
/// a function of the token and the secret alone.
pub uninterp spec fn jwt_claims_of(token: Seq<char>, secret: Seq<char>) -> Option<ClaimsView>;

/// A token carries exactly these claims under this secret: what
/// signing promises of its output. Nothing is claimed of other
/// secrets — a key and a padded variant of it can accept the same
/// tokens, so cross-kind rejection rests on [`independent_secrets`].
pub open spec fn issued_under(token: Seq<char>, c: ClaimsView, secret: Seq<char>) -> bool {
    jwt_claims_of(token, secret) == Some(c)
}

/// Relies on jsonwebtoken::encode with an HS256 header: the result is
/// a token that decodes back to these claims under the same secret.
/// Signing with a symmetric key cannot fail — the claims object
/// serializes infallibly and every key length is accepted — so the
/// fallback below is never taken.
#[verifier::external_body]
fn encode_claims(claims: &Claims, secret: &str) -> (r: String)
    ensures
        issued_under(r@, claims@, secret@),
{
    let mut m = serde_json::Map::new();
    m.insert("iss".to_owned(), serde_json::Value::String(claims.iss.clone()));
    m.insert("aud".to_owned(), serde_json::Value::String(claims.aud.clone()));
    m.insert("exp".to_owned(), serde_json::Value::from(claims.exp));
    m.insert("id".to_owned(), serde_json::Value::String(claims.id.to_string()));
    let key = EncodingKey::from_secret(secret.as_bytes());
    encode(&Header::default(), &serde_json::Value::Object(m), &key).unwrap_or_default()
}

/// Relies on jsonwebtoken::decode over HS256, checking the signature
/// only: issuer, audience and expiry are judged by the verified
/// caller. The outcome depends on the token and the secret alone.
#[verifier::external_body]
fn decode_claims(token: &str, secret: &str) -> (r: Option<Claims>)
    ensures
        match r {
            Some(c) => jwt_claims_of(token@, secret@) == Some(c@),
            None => jwt_claims_of(token@, secret@) is None,
        },
{
    let mut v = Validation::new(Algorithm::HS256);
    v.validate_exp = false;
    v.validate_aud = false;
    v.required_spec_claims.clear();
    let key = DecodingKey::from_secret(secret.as_bytes());
    let data = decode::<serde_json::Value>(token, &key, &v).ok()?.claims;
    let iss = data.get("iss")?.as_str()?.to_owned();
    let aud = data.get("aud")?.as_str()?.to_owned();
    let exp = data.get("exp")?.as_u64()?;
    let id = data.get("id")?.as_str()?.parse::<u128>().ok()?;
    Some(Claims { iss, aud, exp, id })
}

/// The secret that signs the given kind of token.
pub open spec fn spec_secret(s: JwtSettings, is_refresh_token: bool) -> Seq<char> {
    if is_refresh_token {
        s.refresh_token_secret@
    } else {
        s.access_token_secret@
    }
}

/// When a token issued at `now` for the given kind expires.
pub open spec fn spec_expiry(now: u64, is_refresh_token: bool) -> int {
    if is_refresh_token {
        now + REFRESH_TOKEN_LIFE_SECS
    } else {
        now + ACCESS_TOKEN_LIFE_SECS
    }
}

/// The claims a token issued now for this subject and kind carries.
pub open spec fn spec_issued_claims(
    user_id: u128,
    s: JwtSettings,
    is_refresh_token: bool,
    now: u64,
) -> ClaimsView {
    ClaimsView {
        iss: s.issuer@,
        aud: s.audience@,
        exp: spec_expiry(now, is_refresh_token),
        id: user_id as int,
    }
}

/// The cryptographic-independence assumption on the two configured
/// secrets: no token is accepted by both. Plain string inequality is
/// not enough — a key and the same key padded to the MAC's block size
/// accept exactly the same tokens — so sound configurations choose the
/// two secrets independently, and this predicate names that choice.
pub open spec fn independent_secrets(s: JwtSettings) -> bool {
    forall|t: Seq<char>|
        #[trigger] jwt_claims_of(t, s.access_token_secret@) is Some ==> jwt_claims_of(
            t,
            s.refresh_token_secret@,
        ) is None
}

/// Issues a signed token of the given kind for the subject, expiring
/// at `now` plus the kind's horizon.
pub fn generate_jwt(
    user_id: u128,
    jwt_settings: &JwtSettings,
    is_refresh_token: bool,
    now: u64,
) -> (r: Result<String, AppError>)
    requires
        now + REFRESH_TOKEN_LIFE_SECS <= u64::MAX,
    ensures
        r is Ok,
        r matches Ok(t) ==> issued_under(
            t@,
            spec_issued_claims(user_id, *jwt_settings, is_refresh_token, now),
            spec_secret(*jwt_settings, is_refresh_token),
        ),
{
    let exp: u64 = if is_refresh_token {
        now + REFRESH_TOKEN_LIFE_SECS
    } else {
        now + ACCESS_TOKEN_LIFE_SECS
    };
    let claims = Claims {
        iss: jwt_settings.issuer.clone(),
        aud: jwt_settings.audience.clone(),
        exp,
        id: user_id,
    };
    let secret = if is_refresh_token {
        jwt_settings.refresh_token_secret.expose_secret()
    } else {
        jwt_settings.access_token_secret.expose_secret()
    };
    Ok(encode_claims(&claims, secret))
}

/// Why verification refused a token.
#[derive(Clone, Copy, PartialEq, Eq, Structural, Debug)]
pub enum TokenError {
    /// The signature does not check out under the kind's secret, or
    /// the token is not even a token.
    InvalidToken,
    /// Signed by us, but issuer or audience disagree.
    ClaimsMismatch,
    /// Signed by us and well-aimed, but aged out.
    Expired,
}

/// The verdict verification owes for any token: signature first, then
/// issuer and audience, then expiry.
pub open spec fn spec_verdict(
    token: Seq<char>,
    s: JwtSettings,
    is_refresh_token: bool,
    now: u64,
) -> Result<ClaimsView, TokenError> {
    match jwt_claims_of(token, spec_secret(s, is_refresh_token)) {
        Option::None => Result::Err(TokenError::InvalidToken),
        Option::Some(c) => if c.iss != s.issuer@ || c.aud != s.audience@ {
            Result::Err(TokenError::ClaimsMismatch)
        } else if c.exp <= now {
            Result::Err(TokenError::Expired)
        } else {
            Result::Ok(c)
        },
    }
}

/// Verifies a token of the given kind: signature under the kind's
/// secret, issuer, audience and expiry.
pub fn decode_jwt(
    token: &str,
    jwt_settings: &JwtSettings,
    is_refresh_token: bool,
    now: u64,
) -> (r: Result<Claims, TokenError>)
    ensures
        match r {
            Ok(c) => spec_verdict(token@, *jwt_settings, is_refresh_token, now)
                == Result::<ClaimsView, TokenError>::Ok(c@),
            Err(e) => spec_verdict(token@, *jwt_settings, is_refresh_token, now)
                == Result::<ClaimsView, TokenError>::Err(e),
        },
{
    let secret = if is_refresh_token {
        jwt_settings.refresh_token_secret.expose_secret()
    } else {
        jwt_settings.access_token_secret.expose_secret()
    };
    match decode_claims(token, secret) {
        None => Err(TokenError::InvalidToken),
        Some(c) => {
            if !(c.iss == jwt_settings.issuer && c.aud == jwt_settings.audience) {
                Err(TokenError::ClaimsMismatch)
            } else if c.exp <= now {
                Err(TokenError::Expired)
            } else {
                Ok(c)
            }
        },
    }
}

/// Round trip: a token issued for given claims verifies as the kind it
/// was issued for exactly until its expiry; with independently chosen
/// per-kind secrets it never verifies as the other kind. Success
/// happens if and only if the token was made with the matching secret
/// and has not passed its expiry.
pub proof fn lemma_token_round_trip(
    token: Seq<char>,
    c: ClaimsView,
    s: JwtSettings,
    issue_refresh: bool,
    verify_refresh: bool,
    now: u64,
)
    requires
        issued_under(token, c, spec_secret(s, issue_refresh)),
        c.iss == s.issuer@,
        c.aud == s.audience@,
    ensures
        spec_verdict(token, s, issue_refresh, now) == if c.exp > now {
            Result::<ClaimsView, TokenError>::Ok(c)
        } else {
            Result::<ClaimsView, TokenError>::Err(TokenError::Expired)
        },
        independent_secrets(s) && verify_refresh != issue_refresh ==> spec_verdict(
            token,
            s,
            verify_refresh,
            now,
        ) == Result::<ClaimsView, TokenError>::Err(TokenError::InvalidToken),
        independent_secrets(s) ==> ((spec_verdict(token, s, verify_refresh, now) is Ok) <==> (
        verify_refresh == issue_refresh && c.exp > now)),
{
    if independent_secrets(s) && verify_refresh != issue_refresh {
        if issue_refresh {
            assert(jwt_claims_of(token, s.access_token_secret@) is Some ==> jwt_claims_of(
                token,
                s.refresh_token_secret@,
            ) is None);
            assert(jwt_claims_of(token, spec_secret(s, verify_refresh)) is None);
        } else {
            assert(jwt_claims_of(token, s.access_token_secret@) is Some);
            assert(jwt_claims_of(token, spec_secret(s, verify_refresh)) is None);
        }
    }
}

} // verus!
