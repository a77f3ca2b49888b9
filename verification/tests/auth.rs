use foto::auth::{
    authorize, authorize_claims, create_jwt, create_jwt_at, get_jwt, AuthError, Claims,
    TokenError, Username,
};

const SECRET: &[u8] = b"another secret";

#[test]
fn get_jwt_needs_a_header() {
    assert_eq!(get_jwt(None), Err(AuthError::NoAuthHeader));
}

#[test]
fn get_jwt_needs_the_bearer_prefix() {
    assert_eq!(get_jwt(Some("abc")), Err(AuthError::InvalidAuthHeader));
    assert_eq!(get_jwt(Some("bearer abc")), Err(AuthError::InvalidAuthHeader));
    assert_eq!(get_jwt(Some("Bearer")), Err(AuthError::InvalidAuthHeader));
    assert_eq!(get_jwt(Some("")), Err(AuthError::InvalidAuthHeader));
    assert_eq!(get_jwt(Some(" Bearer abc")), Err(AuthError::InvalidAuthHeader));
}

#[test]
fn get_jwt_strips_every_leading_bearer() {
    assert_eq!(get_jwt(Some("Bearer abc")), Ok("abc".to_string()));
    assert_eq!(get_jwt(Some("Bearer ")), Ok("".to_string()));
    assert_eq!(get_jwt(Some("Bearer Bearer Bearer x.y.z")), Ok("x.y.z".to_string()));
    assert_eq!(get_jwt(Some("Bearer abc Bearer ")), Ok("abc Bearer ".to_string()));
    assert_eq!(get_jwt(Some("Bearer é Bearer")), Ok("é Bearer".to_string()));
    assert_eq!(
        get_jwt(Some("Bearer abc")),
        Ok("Bearer abc".trim_start_matches("Bearer ").to_owned())
    );
}

#[test]
fn token_has_the_claims_in_order_and_expires_in_half_an_hour() {
    let token = create_jwt_at("ada", SECRET, 1_000_000).unwrap();
    let parts: Vec<&str> = token.split('.').collect();
    assert_eq!(parts.len(), 3);
    let header = base64::decode_config(parts[0], base64::URL_SAFE_NO_PAD).unwrap();
    assert_eq!(String::from_utf8(header).unwrap(), r#"{"typ":"JWT","alg":"HS512"}"#);
    let claims = base64::decode_config(parts[1], base64::URL_SAFE_NO_PAD).unwrap();
    assert_eq!(String::from_utf8(claims).unwrap(), r#"{"sub":"ada","exp":1001800}"#);
    assert_ne!(token, "ada");
}

#[test]
fn token_is_a_function_of_its_inputs() {
    let a = create_jwt_at("ada", SECRET, 5).unwrap();
    assert_eq!(create_jwt_at("ada", SECRET, 5).unwrap(), a);
    assert_ne!(create_jwt_at("ada", SECRET, 6).unwrap(), a);
    assert_ne!(create_jwt_at("bob", SECRET, 5).unwrap(), a);
    assert_ne!(create_jwt_at("ada", b"x", 5).unwrap(), a);
}

#[test]
fn token_cannot_expire_beyond_the_last_timestamp() {
    assert_eq!(create_jwt_at("ada", SECRET, i64::MAX), Err(TokenError::Expiration));
    assert_eq!(create_jwt_at("ada", SECRET, i64::MAX - 1799), Err(TokenError::Expiration));
    assert!(create_jwt_at("ada", SECRET, i64::MAX - 1800).is_ok());
}

#[test]
fn a_fresh_token_authorizes_its_user() {
    let token = create_jwt("ada", SECRET).unwrap();
    let header = format!("Bearer {}", token);
    assert_eq!(authorize(Some(&header), SECRET), Ok("ada".to_string()));
    let user = Username::from_request(Some(&header), SECRET).unwrap();
    assert_eq!(user.username, "ada");
}

#[test]
fn authorize_refuses_what_is_no_valid_token() {
    let token = create_jwt("ada", SECRET).unwrap();
    let header = format!("Bearer {}", token);
    assert_eq!(authorize(None, SECRET), Err(AuthError::NoAuthHeader));
    assert_eq!(authorize(Some(&token), SECRET), Err(AuthError::InvalidAuthHeader));
    assert_eq!(authorize(Some("Bearer nonsense"), SECRET), Err(AuthError::InvalidAuthHeader));
    assert_eq!(authorize(Some(&header), b"wrong secret"), Err(AuthError::InvalidAuthHeader));
    let old = create_jwt_at("ada", SECRET, 0).unwrap();
    let old_header = format!("Bearer {}", old);
    assert_eq!(authorize(Some(&old_header), SECRET), Err(AuthError::InvalidAuthHeader));
    assert!(Username::from_request(None, SECRET).is_none());
    assert!(Username::from_request(Some("Bearer nonsense"), SECRET).is_none());
}

#[test]
fn claims_authorize_until_they_expire() {
    let claims = |exp: i64| Some(Claims { sub: "ada".to_string(), exp });
    assert_eq!(authorize_claims(None, 0), Err(AuthError::InvalidAuthHeader));
    assert_eq!(authorize_claims(claims(100), 99), Ok("ada".to_string()));
    assert_eq!(authorize_claims(claims(100), 100), Err(AuthError::ExpiredAuth));
    assert_eq!(authorize_claims(claims(100), 101), Err(AuthError::ExpiredAuth));
    assert_eq!(authorize_claims(claims(i64::MIN), i64::MIN), Err(AuthError::ExpiredAuth));
}
