//! What follows from the configuration.

use vstd::prelude::*;
use vstd::string::*;
use crate::config::Config;
use crate::text::{base64_decode, base64_decoding};
use crate::user::UserDataBaseConfig;

verus! {

/// The threshold of a search where the configuration names none.
pub const DEFAULT_HAMMING_DISTANCE: u64 = 20;

/// The rounds of the key derivation.
pub const PBKDF2_ITERATIONS: u32 = 100_000;

/// How passwords are hashed under a configuration: in 100 000 rounds, with
/// the configured salt; nothing where the salt is no base64 text.
pub fn user_database_config(config: &Config) -> (derived: Option<UserDataBaseConfig>)
    ensures
        derived is Some == base64_decoding(config.salt@) is Some,
        derived matches Some(c) ==> c.wf() && c.pbkdf2_iterations == PBKDF2_ITERATIONS && Some(
            c.db_salt_component@,
        ) == base64_decoding(config.salt@),
{
    match base64_decode(config.salt.as_str()) {
        Some(db_salt_component) => Some(
            UserDataBaseConfig { pbkdf2_iterations: PBKDF2_ITERATIONS, db_salt_component },
        ),
        None => None,
    }
}

/// The secret that tokens are signed with; nothing where the configured
/// secret is no base64 text.
pub fn jwt_secret(config: &Config) -> (secret: Option<Vec<u8>>)
    ensures
        secret is Some == base64_decoding(config.jwt_secret@) is Some,
        secret matches Some(s) ==> Some(s@) == base64_decoding(config.jwt_secret@),
{
    base64_decode(config.jwt_secret.as_str())
}

/// The threshold of a search that names none: the configured one, or 20.
pub fn hamming_distance(config: &Config) -> (distance: u64)
    ensures
        distance == match config.hamming_distance {
            Some(d) => d,
            None => DEFAULT_HAMMING_DISTANCE,
        },
{
    match config.hamming_distance {
        Some(distance) => distance,
        None => DEFAULT_HAMMING_DISTANCE,
    }
}

} // verus!
