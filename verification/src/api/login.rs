//! Login.

use vstd::prelude::*;
use vstd::string::*;
use crate::database::Database;
use crate::response::{ApiResponse, ApiResponseView, JsonValue, Status};
use crate::user::{verified_at, verify_user, Credentials, LoginError, UserDataBaseConfig};
use crate::auth::text_result;

verus! {

/// The answer to a login that gave a token or did not.
pub open spec fn login_answer(token: Result<Seq<char>, LoginError>) -> ApiResponseView {
    match token {
        Ok(token) => ApiResponseView {
            message: "Successfully logged in"@,
            token: Some(token),
            status: Status::ok(),
        },
        Err(_) => ApiResponseView {
            message: "Wrong username or password, please try again"@,
            token: None,
            status: Status::bad_request(),
        },
    }
}

/// Answers a login: with the token where there is one, with a refusal where
/// there is none.
pub fn login_response(token: Result<String, LoginError>) -> (response: ApiResponse)
    ensures
        response@ == login_answer(text_result(token)),
{
    match token {
        Ok(token) => ApiResponse {
            json: JsonValue { message: "Successfully logged in".to_owned(), token: Some(token) },
            status: Status::ok(),
        },
        Err(_err) => ApiResponse::message(
            "Wrong username or password, please try again",
            Status::bad_request(),
        ),
    }
}

/// Checks the credentials against the store and answers with a token that
/// is valid from now, or with a refusal.
pub fn login(
    db: &Database,
    credentials: Credentials,
    config: &UserDataBaseConfig,
    secret: &[u8],
) -> (response: ApiResponse)
    requires
        config.wf(),
    ensures
        exists|now: i64|
            response@ == login_answer(
                #[trigger] verified_at(db@, &credentials, config, secret@, now),
            ),
{
    let ghost given = credentials;
    let token = verify_user(credentials, db, config, secret);
    let ghost now = choose|now: i64|
        text_result(token) == #[trigger] verified_at(db@, &given, config, secret@, now);
    let response = login_response(token);
    assert(response@ == login_answer(verified_at(db@, &given, config, secret@, now)));
    response
}

} // verus!
