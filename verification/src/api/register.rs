//! Registration.

use vstd::prelude::*;
use crate::database::Database;
use crate::response::{ApiResponse, ApiResponseView, Status};
use crate::user::{add_user, new_user, Credentials, UserDataBaseConfig};

verus! {

/// Makes an account for the credentials and says how it went: success, or
/// a refusal where the name is taken or the store is full. A refusal
/// changes nothing.
pub fn register(db: &mut Database, credentials: Credentials, config: &UserDataBaseConfig) -> (response:
    ApiResponse)
    requires
        old(db)@.wf(),
        config.wf(),
    ensures
        final(db)@.wf(),
        if !old(db)@.has_user(credentials.username@) && old(db)@.users.len() < i32::MAX {
            &&& final(db)@ == old(db)@.insert_user(new_user(old(db)@, &credentials, config))
            &&& response@ == (ApiResponseView {
                message: "Successfully created a new user"@,
                token: None,
                status: Status::ok(),
            })
        } else {
            &&& final(db)@ == old(db)@
            &&& response@ == (ApiResponseView {
                message: "Could not create a new user, please try again"@,
                token: None,
                status: Status::bad_request(),
            })
        },
{
    match add_user(credentials, db, config) {
        Ok(_) => ApiResponse::message("Successfully created a new user", Status::ok()),
        Err(_err) => ApiResponse::message(
            "Could not create a new user, please try again",
            Status::bad_request(),
        ),
    }
}

} // verus!
