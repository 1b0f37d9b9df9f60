//! Login: a password check against the stored hash, then a fresh token.
use crate::auth::{generate_jwt, lemma_issued_token_accepted, token_accepts, password_matches, token_of, verify_password, TOKEN_LIFETIME_SECS};
use crate::errors::AppError;
use crate::models::Users;
use vstd::prelude::*;

verus! {

/// The credentials a caller logs in with.
pub struct LoginInput {
    pub email: String,
    pub password: String,
}

/// The answer to a successful login.
pub struct LoginResponse {
    pub message: String,
    pub user_id: Option<i32>,
    pub token: Option<String>,
}

/// Logs in at time `now` against the account found for the email, if any: an unknown
/// email is `NotFound`, a wrong password `Unauthorized`; otherwise the answer carries
/// the account's id and a token issued now.
pub fn login(secret: &[u8], payload: &LoginInput, user: Option<Users>, now: i64) -> (r: Result<
    LoginResponse,
    AppError,
>)
    ensures
        match user {
            None => r is Err && r->Err_0 is NotFound && r->Err_0.spec_message() == "User not found"@,
            Some(u) => if !password_matches(payload.password@, u.password@) {
                r is Err && r->Err_0 is Unauthorized && r->Err_0.spec_message()
                    == "Invalid password"@
            } else if now + TOKEN_LIFETIME_SECS > i64::MAX {
                r is Err && r->Err_0 is InternalServerError
            } else {
                r is Ok && r->Ok_0.user_id == Some(u.id) && r->Ok_0.token is Some
                    && r->Ok_0.token->Some_0@ == token_of(secret@, u.id as int, now + TOKEN_LIFETIME_SECS)
            },
        },
{
    let u = match user {
        Some(u) => u,
        None => return Err(AppError::NotFound("User not found".to_string())),
    };
    if !verify_password(payload.password.as_str(), u.password.as_str()) {
        return Err(AppError::Unauthorized("Invalid password".to_string()));
    }
    let token = match generate_jwt(secret, u.id, now) {
        Ok(t) => t,
        Err(e) => return Err(e),
    };
    Ok(
        LoginResponse {
            message: "Login successful".to_string(),
            user_id: Some(u.id),
            token: Some(token),
        },
    )
}

/// The token of a successful login at `now` proves the account's identity at any time
/// from the login until the token expires a day later.
pub proof fn lemma_login_token_validates(secret: Seq<u8>, id: i32, now: i64, later: i64)
    requires
        now <= later <= now + TOKEN_LIFETIME_SECS,
        now + TOKEN_LIFETIME_SECS <= i64::MAX,
    ensures
        token_accepts(secret, token_of(secret, id as int, now + TOKEN_LIFETIME_SECS), later as int, id as int),
{
    lemma_issued_token_accepted(secret, id, now, later);
}

} // verus!
