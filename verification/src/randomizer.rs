//! Fresh random values: identifiers and test-grade random strings.

use vstd::prelude::*;

use rand::{distributions::Alphanumeric, Rng};

verus! {

/// A digit, an upper-case or a lower-case ASCII letter.
pub open spec fn spec_ascii_alphanumeric(c: char) -> bool {
    ||| 48 <= c as u32 <= 57
    ||| 65 <= c as u32 <= 90
    ||| 97 <= c as u32 <= 122
}

/// Relies on rand's thread_rng over the Alphanumeric distribution:
/// exactly `r` characters come back, each an ASCII alphanumeric.
/// Nothing is promised of which.
#[verifier::external_body]
pub fn generate_random_string(r: usize) -> (s: String)
    ensures
        s@.len() == r as nat,
        forall|i: int| 0 <= i < s@.len() ==> spec_ascii_alphanumeric(#[trigger] s@[i]),
{
    rand::thread_rng().sample_iter(Alphanumeric).take(r).map(char::from).collect()
}

/// Relies on uuid's Uuid::new_v7 at the current timestamp: a fresh
/// time-ordered identifier. Nothing is promised of its value.
#[verifier::external_body]
pub(crate) fn generate_entity_id() -> (id: u128) {
    uuid::Uuid::new_v7(uuid::Timestamp::now(uuid::NoContext)).as_u128()
}

} // verus!
