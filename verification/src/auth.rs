//! Tokens: how one is made for a user, and how a request's header is read
//! for one.

use vstd::prelude::*;
use vstd::string::*;
use crate::clock::utc_timestamp;
use crate::images::text_view;
use crate::text::{starts_with, trim_start, trim_start_matches};

verus! {

/// Why a request was not authorized.
#[derive(Debug, Clone, Copy, PartialEq, Eq, Structural)]
pub enum AuthError {
    NoAuthHeader,
    InvalidAuthHeader,
    ExpiredAuth,
}

/// Why no token could be made.
#[derive(Debug, Clone, Copy, PartialEq, Eq, Structural)]
pub enum TokenError {
    /// The time at which the token would expire is beyond what a timestamp
    /// can hold.
    Expiration,
    /// The token could not be encoded.
    Encoding,
}

/// The user that a request was authorized for.
#[derive(Debug)]
pub struct Username {
    pub username: String,
}

/// What a token says: whom it is for and when it expires, in seconds since
/// the epoch.
#[derive(Debug)]
pub struct Claims {
    pub sub: String,
    pub exp: i64,
}

/// What [`Claims`] hold, as mathematical values.
pub struct ClaimsView {
    pub sub: Seq<char>,
    pub exp: i64,
}

impl View for Claims {
    type V = ClaimsView;

    open spec fn view(&self) -> ClaimsView {
        ClaimsView { sub: self.sub@, exp: self.exp }
    }
}

/// How long a token is valid, in seconds.
pub const TOKEN_LIFETIME: i64 = 1800;

/// What an authorization header begins with.
pub open spec fn bearer() -> Seq<char> {
    "Bearer "@
}

/// The token of an authorization header.
pub open spec fn jwt_of(auth_header: Option<Seq<char>>) -> Result<Seq<char>, AuthError> {
    match auth_header {
        None => Err(AuthError::NoAuthHeader),
        Some(header) => if !bearer().is_prefix_of(header) {
            Err(AuthError::InvalidAuthHeader)
        } else {
            Ok(trim_start(header, bearer()))
        },
    }
}

/// The view of a text or an error.
pub open spec fn text_result<E>(result: Result<String, E>) -> Result<Seq<char>, E> {
    match result {
        Ok(t) => Ok(t@),
        Err(e) => Err(e),
    }
}

/// The view of an optional borrowed text.
pub open spec fn header_view(header: Option<&str>) -> Option<Seq<char>> {
    match header {
        Some(h) => Some(h@),
        None => None,
    }
}

/// Reads the token from the value of a request's authorization header:
/// what stands behind `Bearer `, however often that is repeated.
pub fn get_jwt(auth_header: Option<&str>) -> (jwt: Result<String, AuthError>)
    ensures
        text_result(jwt) == jwt_of(header_view(auth_header)),
{
    let auth_header = match auth_header {
        Some(h) => h,
        None => { return Err(AuthError::NoAuthHeader); },
    };
    if !starts_with(auth_header, "Bearer ") {
        Err(AuthError::InvalidAuthHeader)
    } else {
        Ok(trim_start_matches(auth_header, "Bearer ").to_owned())
    }
}

/// The token that `jsonwebtoken::encode` makes with the algorithm HS512 of
/// the claims `sub` and `exp`, in that order, signed with `secret`; `None`
/// where it fails.
pub uninterp spec fn jwt_hs512(sub: Seq<char>, exp: i64, secret: Seq<u8>) -> Option<Seq<char>>;

/// Calls `jsonwebtoken::encode` with a header for HS512, the claims `sub`
/// and `exp` and the secret as the key: whether a token comes out, and
/// which, are functions of the three values alone.
#[verifier::external_body]
pub(crate) fn encode_token(sub: &str, exp: i64, secret: &[u8]) -> (token: Option<String>)
    ensures
        text_view(token) == jwt_hs512(sub@, exp, secret@),
{
    let mut claims = serde_json::Map::new();
    claims.insert("sub".to_string(), serde_json::Value::from(sub));
    claims.insert("exp".to_string(), serde_json::Value::from(exp));
    let header = jsonwebtoken::Header::new(jsonwebtoken::Algorithm::HS512);
    let key = jsonwebtoken::EncodingKey::from_secret(secret);
    jsonwebtoken::encode(&header, &claims, &key).ok()
}

/// Calls `jsonwebtoken::decode` with the secret as the key and the default
/// validation for HS512, and reads the claims `sub` and `exp` from what
/// comes out. The validation looks at the clock, so nothing is known of the
/// outcome.
#[verifier::external_body]
pub(crate) fn decode_token(token: &str, secret: &[u8]) -> (claims: Option<Claims>) {
    let key = jsonwebtoken::DecodingKey::from_secret(secret);
    let validation = jsonwebtoken::Validation::new(jsonwebtoken::Algorithm::HS512);
    let data = jsonwebtoken::decode::<serde_json::Value>(token, &key, &validation).ok()?;
    let sub = data.claims.get("sub")?.as_str()?.to_owned();
    let exp = data.claims.get("exp")?.as_i64()?;
    Some(Claims { sub, exp })
}

/// The token for `username` that is made at the time `now`.
pub open spec fn jwt_at(username: Seq<char>, secret: Seq<u8>, now: i64) -> Result<
    Seq<char>,
    TokenError,
> {
    if now + TOKEN_LIFETIME > i64::MAX {
        Err(TokenError::Expiration)
    } else {
        match jwt_hs512(username, (now + TOKEN_LIFETIME) as i64, secret) {
            Some(token) => Ok(token),
            None => Err(TokenError::Encoding),
        }
    }
}

/// Makes a token for `username` at the time `now`: it expires half an hour
/// later.
pub fn create_jwt_at(username: &str, secret: &[u8], now: i64) -> (jwt: Result<String, TokenError>)
    ensures
        text_result(jwt) == jwt_at(username@, secret@, now),
{
    let expiration_time = match now.checked_add(TOKEN_LIFETIME) {
        Some(t) => t,
        None => { return Err(TokenError::Expiration); },
    };
    match encode_token(username, expiration_time, secret) {
        Some(token) => Ok(token),
        None => Err(TokenError::Encoding),
    }
}

/// Makes a token for `username` that expires half an hour from now.
pub fn create_jwt(username: &str, secret: &[u8]) -> (jwt: Result<String, TokenError>)
    ensures
        exists|now: i64| text_result(jwt) == #[trigger] jwt_at(username@, secret@, now),
{
    let now = utc_timestamp();
    let jwt = create_jwt_at(username, secret, now);
    assert(text_result(jwt) == jwt_at(username@, secret@, now));
    jwt
}

/// Whom decoded claims authorize at the time `now`.
pub open spec fn authorized(claims: Option<ClaimsView>, now: i64) -> Result<Seq<char>, AuthError> {
    match claims {
        None => Err(AuthError::InvalidAuthHeader),
        Some(c) => if c.exp <= now {
            Err(AuthError::ExpiredAuth)
        } else {
            Ok(c.sub)
        },
    }
}

/// The view of optional claims.
pub open spec fn claims_view(claims: Option<Claims>) -> Option<ClaimsView> {
    match claims {
        Some(c) => Some(c@),
        None => None,
    }
}

/// Says whom the claims of a token authorize at the time `now`: nobody
/// where the token did not decode, nobody where it has expired.
pub fn authorize_claims(claims: Option<Claims>, now: i64) -> (user: Result<String, AuthError>)
    ensures
        text_result(user) == authorized(claims_view(claims), now),
{
    match claims {
        None => Err(AuthError::InvalidAuthHeader),
        Some(c) => {
            if c.exp <= now {
                Err(AuthError::ExpiredAuth)
            } else {
                Ok(c.sub)
            }
        },
    }
}

/// Says whom the authorization header of a request authorizes. Without a
/// header, or with one that does not begin with `Bearer `, nobody; else
/// whoever the token's claims authorize now.
pub fn authorize(auth_header: Option<&str>, secret: &[u8]) -> (user: Result<String, AuthError>)
    ensures
        match jwt_of(header_view(auth_header)) {
            Err(e) => text_result(user) == Err::<Seq<char>, AuthError>(e),
            Ok(_) => exists|claims: Option<ClaimsView>, now: i64|
                text_result(user) == #[trigger] authorized(claims, now),
        },
{
    let jwt = match get_jwt(auth_header) {
        Ok(jwt) => jwt,
        Err(e) => { return Err(e); },
    };
    let decoded_jwt = decode_token(jwt.as_str(), secret);
    let current_time = utc_timestamp();
    let ghost claims = claims_view(decoded_jwt);
    let user = authorize_claims(decoded_jwt, current_time);
    assert(text_result(user) == authorized(claims, current_time));
    user
}

impl Username {
    /// The user of a request: the one whom its authorization header
    /// authorizes, if it authorizes anyone.
    pub fn from_request(auth_header: Option<&str>, secret: &[u8]) -> (user: Option<Username>)
        ensures
            match jwt_of(header_view(auth_header)) {
                Err(_) => user is None,
                Ok(_) => exists|claims: Option<ClaimsView>, now: i64|
                    match #[trigger] authorized(claims, now) {
                        Ok(name) => user matches Some(u) && u.username@ == name,
                        Err(_) => user is None,
                    },
            },
    {
        match authorize(auth_header, secret) {
            Ok(username) => Some(Username { username }),
            Err(_) => None,
        }
    }
}

} // verus!
