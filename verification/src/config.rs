//! Configuration consumed by the core: issuer and audience strings,
//! signing secrets, and the surrounding service settings.
//!
//! Secret material is held in an opaque handle whose value is reachable
//! only through a narrow accessor, so that accidental logging or
//! serialization stays out of reach at the type level.

use vstd::prelude::*;

verus! {

/// Opaque holder of secret material. The value is reachable only
/// through [`SecretString::expose_secret`].
pub struct SecretString {
    value: String,
}

impl View for SecretString {
    type V = Seq<char>;

    closed spec fn view(&self) -> Seq<char> {
        self.value@
    }
}

impl SecretString {
    pub fn new(value: String) -> (s: SecretString)
        ensures
            s@ == value@,
    {
        SecretString { value }
    }

    /// The narrow accessor: the only way to read the secret.
    pub fn expose_secret(&self) -> (r: &str)
        ensures
            r@ == self@,
    {
        self.value.as_str()
    }
}

/// Where the service listens and which client origin it serves.
pub struct AppSettings {
    pub host: String,
    pub port: u16,
    pub client_url: String,
}

/// How the out-of-scope storage adapter reaches its database.
pub struct DatabaseSettings {
    pub host: String,
    pub port: u16,
    pub username: String,
    pub password: SecretString,
    pub database_name: String,
    pub require_ssl: bool,
}

/// Token-signing configuration: the access and refresh secrets are
/// chosen independently, so that a token of one kind is not accepted
/// as the other.
pub struct JwtSettings {
    pub issuer: String,
    pub audience: String,
    pub access_token_secret: SecretString,
    pub refresh_token_secret: SecretString,
}

/// Everything the service is configured with.
pub struct Settings {
    pub app: AppSettings,
    pub database: DatabaseSettings,
    pub jwt: JwtSettings,
}

/// Which configuration profile the process runs under.
#[derive(Debug)]
pub enum Environment {
    Local,
    Production,
}

/// The lowercased form of a string, as str::to_lowercase computes it:
/// a function of the characters alone.
pub uninterp spec fn lower_of(s: Seq<char>) -> Seq<char>;

/// Relies on str::to_lowercase: the result depends on the characters
/// alone.
#[verifier::external_body]
fn lowercase(s: &str) -> (r: String)
    ensures
        r@ == lower_of(s@),
{
    s.to_lowercase()
}

impl Environment {
    /// The profile's canonical name.
    pub fn as_str(&self) -> (r: &str)
        ensures
            match *self {
                Environment::Local => r@ == "local"@,
                Environment::Production => r@ == "production"@,
            },
    {
        match self {
            Environment::Local => "local",
            Environment::Production => "production",
        }
    }

    /// Reads a profile name, case-insensitively.
    pub fn try_from(value: String) -> (r: Result<Environment, String>)
        ensures
            match r {
                Ok(Environment::Local) => lower_of(value@) == "local"@,
                Ok(Environment::Production) => lower_of(value@) == "production"@,
                Err(_) => lower_of(value@) != "local"@ && lower_of(value@) != "production"@,
            },
    {
        let lower = lowercase(value.as_str());
        if lower == "local".to_owned() {
            Ok(Environment::Local)
        } else if lower == "production".to_owned() {
            Ok(Environment::Production)
        } else {
            Err(value.concat(" is not a valid environment."))
        }
    }
}

} // verus!
