//! Signup: a new account with a hashed password, unless the email is taken.
use crate::auth::{bcrypt_cost12_form, hash_password, password_matches};
use crate::errors::AppError;
use crate::routes::profile::UserProfile;
use vstd::prelude::*;

verus! {

/// What a caller signs up with.
pub struct SignUpInput {
    pub username: String,
    pub email: String,
    pub password: String,
}

/// The answer to a signup.
pub struct ApiResponse {
    pub message: String,
    pub created: bool,
}

/// The record to create for a signup: a taken email is `BadRequest` and creates
/// nothing; otherwise the names are kept and the password is hashed.
pub fn sign_up(payload: &SignUpInput, email_taken: bool) -> (r: Result<UserProfile, AppError>)
    ensures
        email_taken ==> r is Err && r->Err_0 is BadRequest,
        !email_taken ==> match r {
            Ok(rec) => rec.username@ == payload.username@ && rec.email@ == payload.email@
                && password_matches(payload.password@, rec.password@) && bcrypt_cost12_form(
                rec.password@,
            ),
            Err(e) => e is InternalServerError,
        },
{
    if email_taken {
        return Err(AppError::BadRequest("Username is already in use".to_string()));
    }
    let hashed = match hash_password(payload.password.as_str()) {
        Ok(h) => h,
        Err(e) => return Err(e),
    };
    Ok(
        UserProfile {
            username: payload.username.clone(),
            email: payload.email.clone(),
            password: hashed,
        },
    )
}

/// The answer once the account was created.
pub fn created_response() -> (r: ApiResponse)
    ensures
        r.created,
{
    ApiResponse { message: "User created successfully".to_string(), created: true }
}

} // verus!
