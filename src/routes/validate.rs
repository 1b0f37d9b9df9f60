//! Token validation for callers: a valid token whose account still exists.
use crate::errors::AppError;
use vstd::prelude::*;

verus! {

/// The answer to a token check.
pub struct ApiResponse {
    pub user_id: Option<i32>,
    pub message: String,
}

/// The answer to a token check: a failed authentication is passed on unchanged, an
/// identity whose account is gone is `NotFound`.
pub fn validate_token(auth: Result<i32, AppError>, account_exists: bool) -> (r: Result<
    ApiResponse,
    AppError,
>)
    ensures
        auth is Err ==> r == Err::<ApiResponse, AppError>(auth->Err_0),
        auth is Ok && account_exists ==> r is Ok && r->Ok_0.user_id == Some(auth->Ok_0)
            && r->Ok_0.message@ == "Token is valid"@,
        auth is Ok && !account_exists ==> r is Err && r->Err_0 is NotFound
            && r->Err_0.spec_message() == "User not found"@,
{
    let user_id = match auth {
        Ok(id) => id,
        Err(e) => return Err(e),
    };
    if !account_exists {
        return Err(AppError::NotFound("User not found".to_string()));
    }
    Ok(ApiResponse { user_id: Some(user_id), message: "Token is valid".to_string() })
}

} // verus!
