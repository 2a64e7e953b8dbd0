//! Plain request and row values exchanged with the callers of the core.

use vstd::prelude::*;

verus! {

/// Raw login input, before validation.
pub struct LoginFormData {
    pub username: String,
    pub password: String,
}

/// Raw registration input, before validation.
pub struct RegisterFormData {
    pub username: String,
    pub password: String,
}

/// A user row as authentication reads it: the identifier alone.
#[derive(Debug)]
pub struct UserData {
    pub id: u128,
}

/// A refresh-token row as rotation reads it: the owning user alone.
pub struct UserTokenData {
    pub user_id: u128,
}

} // verus!
