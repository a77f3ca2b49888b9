//! Accounts: how credentials are salted, hashed, stored and checked.

use vstd::prelude::*;
use vstd::string::*;
use vstd::utf8::encode_utf8;
use crate::auth::{create_jwt_at, jwt_at, text_result, TokenError};
use crate::clock::utc_timestamp;
use crate::database::{Database, DatabaseView};
use crate::text::{base64_decode, base64_decoding, base64_encode, base64_encoding, decimal, decimal_text};

verus! {

/// The number of bytes of a hashed password.
pub const CREDENTIAL_LEN: usize = 32;

/// The longest key that the derivation can make: its block length times the
/// largest block number.
pub const DERIVED_MAX: u64 = 0xffff_ffff * 32;

/// Why no account was made.
#[derive(Debug, Clone, Copy, PartialEq, Eq, Structural)]
pub enum UserError {
    /// An account has the name already.
    UserExists,
    /// The store could not keep the credentials.
    StoreCredentials,
}

/// Why a login gave no token.
#[derive(Debug, Clone, Copy, PartialEq, Eq, Structural)]
pub enum LoginError {
    Verify(VerifyError),
    Token(TokenError),
}

/// A name and a password, as a request carries them.
#[derive(Debug)]
pub struct Credentials {
    pub username: String,
    pub password: String,
}

/// How passwords are hashed.
pub struct UserDataBaseConfig {
    /// Rounds of the key derivation; at least one.
    pub pbkdf2_iterations: u32,
    /// What every salt starts with.
    pub db_salt_component: Vec<u8>,
}

/// A login was refused.
#[derive(Debug, Clone, Copy, PartialEq, Eq, Structural)]
pub enum VerifyError {
    IncorrectUsernameOrPassword,
}

/// One stored account.
#[derive(Debug)]
pub struct User {
    pub id: i32,
    pub username: String,
    /// The hashed password, in base64.
    pub password: String,
}

/// What a [`User`] holds, as mathematical values.
pub struct UserView {
    pub id: i32,
    pub username: Seq<char>,
    pub password: Seq<char>,
}

impl View for User {
    type V = UserView;

    open spec fn view(&self) -> UserView {
        UserView { id: self.id, username: self.username@, password: self.password@ }
    }
}

/// The views of a list of accounts.
pub open spec fn user_views(users: Seq<User>) -> Seq<UserView> {
    Seq::new(users.len(), |i: int| users[i]@)
}

impl User {
    /// A copy of this account.
    pub fn duplicate(&self) -> (copy: User)
        ensures
            copy@ == self@,
    {
        User { id: self.id, username: self.username.clone(), password: self.password.clone() }
    }
}

impl Clone for User {
    fn clone(&self) -> (copy: User)
        ensures
            copy@ == self@,
    {
        self.duplicate()
    }
}

impl UserDataBaseConfig {
    /// Whether the configuration can be used: the derivation has at least
    /// one round.
    pub open spec fn wf(&self) -> bool {
        self.pbkdf2_iterations >= 1
    }
}

/// The key of `len` bytes that PBKDF2 with HMAC-SHA256 derives from a
/// secret and a salt in `iterations` rounds, as `ring::pbkdf2::derive`
/// computes it.
pub uninterp spec fn pbkdf2_hmac_sha256(
    iterations: u32,
    salt: Seq<u8>,
    secret: Seq<u8>,
    len: nat,
) -> Seq<u8>;

/// Calls `ring::pbkdf2::derive` with HMAC-SHA256 for a key of 32 bytes: the
/// key is a function of the rounds, the salt and the secret alone.
#[verifier::external_body]
pub(crate) fn pbkdf2_derive(iterations: u32, salt: &[u8], secret: &[u8]) -> (out: [u8; 32])
    requires
        iterations >= 1,
    ensures
        out@ == pbkdf2_hmac_sha256(iterations, salt@, secret@, CREDENTIAL_LEN as nat),
{
    let mut out = [0u8; 32];
    let rounds = std::num::NonZeroU32::new(iterations).unwrap();
    ring::pbkdf2::derive(ring::pbkdf2::PBKDF2_HMAC_SHA256, rounds, salt, secret, &mut out);
    out
}

/// Whether `previously_derived` is the key that the secret and the salt
/// give: it is not empty, and it is the derived key of its own length.
pub open spec fn derived_from(
    iterations: u32,
    salt: Seq<u8>,
    secret: Seq<u8>,
    previously_derived: Seq<u8>,
) -> bool {
    previously_derived.len() > 0 && previously_derived == pbkdf2_hmac_sha256(
        iterations,
        salt,
        secret,
        previously_derived.len(),
    )
}

/// Calls `ring::pbkdf2::verify` with HMAC-SHA256: it accepts a key that is
/// not empty and equals the key of the same length that `derive` makes of
/// the same rounds, salt and secret, and no other.
#[verifier::external_body]
pub(crate) fn pbkdf2_verify(
    iterations: u32,
    salt: &[u8],
    secret: &[u8],
    previously_derived: &[u8],
) -> (matches: bool)
    requires
        iterations >= 1,
        previously_derived@.len() <= DERIVED_MAX,
    ensures
        matches == derived_from(iterations, salt@, secret@, previously_derived@),
{
    let rounds = std::num::NonZeroU32::new(iterations).unwrap();
    let alg = ring::pbkdf2::PBKDF2_HMAC_SHA256;
    ring::pbkdf2::verify(alg, rounds, salt, secret, previously_derived).is_ok()
}

/// The salt for a user: the store's own part and, behind it, the bytes of
/// the user's name.
pub open spec fn salt_of(username: Seq<char>, config: &UserDataBaseConfig) -> Seq<u8> {
    config.db_salt_component@ + encode_utf8(username)
}

/// The salt for a user: the store's own part and, behind it, the bytes of
/// the user's name.
pub fn salt(username: &str, config: &UserDataBaseConfig) -> (salt: Vec<u8>)
    ensures
        salt@ == salt_of(username@, config),
{
    let mut salt: Vec<u8> = Vec::new();
    salt.extend_from_slice(config.db_salt_component.as_slice());
    salt.extend_from_slice(username.as_bytes());
    assert(salt@ =~= config.db_salt_component@ + username.spec_bytes());
    assert(username.spec_bytes() == encode_utf8(username@));
    salt
}

/// The accounts that have the name of the credentials, oldest first.
pub fn get_users_by_credentials(credentials: &Credentials, db: &Database) -> (users: Vec<User>)
    ensures
        user_views(users@) == db@.users_named(credentials.username@),
{
    db.users_named(credentials.username.as_str())
}

/// The hashed password that is stored for credentials: the derived key of
/// 32 bytes, in base64.
pub open spec fn stored_password(
    username: Seq<char>,
    password: Seq<char>,
    config: &UserDataBaseConfig,
) -> Seq<char> {
    base64_encoding(
        pbkdf2_hmac_sha256(
            config.pbkdf2_iterations,
            salt_of(username, config),
            encode_utf8(password),
            CREDENTIAL_LEN as nat,
        ),
    )
}

/// The account that credentials make in a store.
pub open spec fn new_user(
    db: DatabaseView,
    credentials: &Credentials,
    config: &UserDataBaseConfig,
) -> UserView {
    UserView {
        id: (db.users.len() + 1) as i32,
        username: credentials.username@,
        password: stored_password(credentials.username@, credentials.password@, config),
    }
}

/// Hashes the password and stores the account, unless the store is full.
pub fn store_credentials(
    credentials: Credentials,
    db: &mut Database,
    config: &UserDataBaseConfig,
) -> (stored: Result<(), UserError>)
    requires
        old(db)@.wf(),
        config.wf(),
        !old(db)@.has_user(credentials.username@),
    ensures
        final(db)@.wf(),
        old(db)@.users.len() < i32::MAX ==> stored is Ok && final(db)@ == old(db)@.insert_user(
            new_user(old(db)@, &credentials, config),
        ),
        old(db)@.users.len() >= i32::MAX ==> stored == Err::<(), UserError>(
            UserError::StoreCredentials,
        ) && final(db)@ == old(db)@,
{
    let salt = salt(credentials.username.as_str(), config);
    let hashed_credential = pbkdf2_derive(
        config.pbkdf2_iterations,
        salt.as_slice(),
        credentials.password.as_str().as_bytes(),
    );
    let password = base64_encode(hashed_credential.as_slice());
    if db.insert_user(credentials.username, password) {
        Ok(())
    } else {
        Err(UserError::StoreCredentials)
    }
}

/// Makes an account for the credentials, unless one has the name already.
pub fn add_user(credentials: Credentials, db: &mut Database, config: &UserDataBaseConfig) -> (added:
    Result<(), UserError>)
    requires
        old(db)@.wf(),
        config.wf(),
    ensures
        final(db)@.wf(),
        old(db)@.has_user(credentials.username@) ==> added == Err::<(), UserError>(
            UserError::UserExists,
        ) && final(db)@ == old(db)@,
        !old(db)@.has_user(credentials.username@) && old(db)@.users.len() < i32::MAX ==> added
            is Ok && final(db)@ == old(db)@.insert_user(new_user(old(db)@, &credentials, config)),
        !old(db)@.has_user(credentials.username@) && old(db)@.users.len() >= i32::MAX ==> added
            == Err::<(), UserError>(UserError::StoreCredentials) && final(db)@ == old(db)@,
{
    let users = get_users_by_credentials(&credentials, db);
    proof {
        db@.lemma_users_named(credentials.username@);
    }
    if users.len() != 0 {
        Err(UserError::UserExists)
    } else {
        store_credentials(credentials, db, config)
    }
}

/// Whether a stored password lets the credentials in: it is the base64
/// text of the key that the credentials derive. A stored password that is
/// no base64 text lets nobody in.
pub open spec fn password_accepted(
    stored: Seq<char>,
    credentials: &Credentials,
    config: &UserDataBaseConfig,
) -> bool {
    match base64_decoding(stored) {
        Some(hash) => hash.len() <= DERIVED_MAX && derived_from(
            config.pbkdf2_iterations,
            salt_of(credentials.username@, config),
            encode_utf8(credentials.password@),
            hash,
        ),
        None => false,
    }
}

/// What a login with the credentials gives at the time `now`: a token for
/// the account's number, if the name has one account and its stored
/// password lets the credentials in.
pub open spec fn verified_at(
    db: DatabaseView,
    credentials: &Credentials,
    config: &UserDataBaseConfig,
    secret: Seq<u8>,
    now: i64,
) -> Result<Seq<char>, LoginError> {
    let users = db.users_named(credentials.username@);
    if users.len() == 1 && password_accepted(users[0].password, credentials, config) {
        match jwt_at(decimal(users[0].id as int), secret, now) {
            Ok(token) => Ok(token),
            Err(e) => Err(LoginError::Token(e)),
        }
    } else {
        Err(LoginError::Verify(VerifyError::IncorrectUsernameOrPassword))
    }
}

/// Checks the credentials against the store and makes a token at the time
/// `now` for the account that they belong to.
pub fn verify_user_at(
    credentials: Credentials,
    db: &Database,
    config: &UserDataBaseConfig,
    secret: &[u8],
    now: i64,
) -> (token: Result<String, LoginError>)
    requires
        config.wf(),
    ensures
        text_result(token) == verified_at(db@, &credentials, config, secret@, now),
{
    let users = get_users_by_credentials(&credentials, db);
    if users.len() == 1 {
        let user = &users[0];
        assert(user@ == db@.users_named(credentials.username@)[0]);
        let actual_pw_hash = match base64_decode(user.password.as_str()) {
            Some(hash) => hash,
            None => {
                return Err(LoginError::Verify(VerifyError::IncorrectUsernameOrPassword));
            },
        };
        if actual_pw_hash.len() as u64 > DERIVED_MAX {
            return Err(LoginError::Verify(VerifyError::IncorrectUsernameOrPassword));
        }
        let salt = salt(credentials.username.as_str(), config);
        if !pbkdf2_verify(
            config.pbkdf2_iterations,
            salt.as_slice(),
            credentials.password.as_str().as_bytes(),
            actual_pw_hash.as_slice(),
        ) {
            return Err(LoginError::Verify(VerifyError::IncorrectUsernameOrPassword));
        }
        let subject = decimal_text(user.id);
        match create_jwt_at(subject.as_str(), secret, now) {
            Ok(token) => Ok(token),
            Err(e) => Err(LoginError::Token(e)),
        }
    } else {
        Err(LoginError::Verify(VerifyError::IncorrectUsernameOrPassword))
    }
}

/// Checks the credentials against the store and makes a token for the
/// account that they belong to, valid from now.
pub fn verify_user(
    credentials: Credentials,
    db: &Database,
    config: &UserDataBaseConfig,
    secret: &[u8],
) -> (token: Result<String, LoginError>)
    requires
        config.wf(),
    ensures
        exists|now: i64|
            text_result(token) == #[trigger] verified_at(db@, &credentials, config, secret@, now),
{
    let now = utc_timestamp();
    let token = verify_user_at(credentials, db, config, secret, now);
    assert(text_result(token) == verified_at(db@, &credentials, config, secret@, now));
    token
}

} // verus!
