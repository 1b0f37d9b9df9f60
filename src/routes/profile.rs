//! A user's own profile: reading it and changing it.
use crate::auth::{bcrypt_cost12_form, hash_password, password_matches};
use crate::errors::AppError;
use crate::guard::{require_self, resolve_role};
use crate::routes::admin;
use vstd::prelude::*;

verus! {

/// The public fields of an account.
pub struct UserProfileResponse {
    pub username: String,
    pub email: String,
    pub id: i32,
}

/// A profile where any field may be absent: a patch in, a view out.
pub struct PartialUserProfile {
    pub id: Option<i32>,
    pub username: Option<String>,
    pub email: Option<String>,
    pub password: Option<String>,
    pub role: Option<String>,
}

/// The stored fields a user may change: names and password hash.
pub struct UserProfile {
    pub username: String,
    pub email: String,
    pub password: String,
}

/// One row of the activity log: who did what.
pub struct ActivityLog {
    pub user_id: i32,
    pub user_action: String,
}

/// A role id with its name.
pub struct Role {
    pub id: i32,
    pub name: String,
}

/// The profile of account `user_id` after a patch by the authenticated caller. A failed
/// authentication is passed on unchanged and another caller is `Forbidden`, both with
/// nothing to write. Otherwise given fields replace the stored ones, a new password is
/// hashed, an absent password keeps the stored hash, and a missing account is `NotFound`.
pub fn patch_profile(
    auth: Result<i32, AppError>,
    user_id: i32,
    payload: PartialUserProfile,
    current: Option<UserProfile>,
) -> (r: Result<UserProfile, AppError>)
    ensures
        auth is Err ==> r == Err::<UserProfile, AppError>(auth->Err_0),
        auth is Ok && auth->Ok_0 != user_id ==> r is Err && r->Err_0 is Forbidden,
        auth == Ok::<i32, AppError>(user_id) ==> match current {
            None => r is Err && r->Err_0 is NotFound,
            Some(cur) => match r {
                Ok(p) => {
                    &&& p.username@ == match payload.username {
                        Some(n) => n@,
                        None => cur.username@,
                    }
                    &&& p.email@ == match payload.email {
                        Some(e) => e@,
                        None => cur.email@,
                    }
                    &&& match payload.password {
                        Some(pw) => password_matches(pw@, p.password@) && bcrypt_cost12_form(
                            p.password@,
                        ),
                        None => p.password@ == cur.password@,
                    }
                },
                Err(e) => e is InternalServerError && payload.password is Some,
            },
        },
{
    if let Err(e) = require_self(auth, user_id) {
        return Err(e);
    }
    let cur = match current {
        Some(c) => c,
        None => return Err(AppError::NotFound("User not found".to_string())),
    };
    let password = match payload.password {
        Some(pw) => match hash_password(pw.as_str()) {
            Ok(h) => h,
            Err(e) => return Err(e),
        },
        None => cur.password,
    };
    let username = match payload.username {
        Some(n) => n,
        None => cur.username,
    };
    let email = match payload.email {
        Some(e) => e,
        None => cur.email,
    };
    Ok(UserProfile { username, email, password })
}

/// What to record and answer once a profile update touched `rows_affected` rows: an
/// activity entry for the account and the reply, or an internal error where no row changed.
pub fn profile_update_outcome(user_id: i32, rows_affected: u64) -> (r: Result<
    (ActivityLog, String),
    AppError,
>)
    ensures
        rows_affected == 0 ==> r is Err && r->Err_0 is InternalServerError
            && r->Err_0.spec_message() == "Failed to update user"@,
        rows_affected > 0 ==> r is Ok && r->Ok_0.0.user_id == user_id && r->Ok_0.0.user_action@
            == "Profile Updated"@ && r->Ok_0.1@ == "User updated successfully"@,
{
    if rows_affected == 0 {
        return Err(AppError::InternalServerError("Failed to update user".to_string()));
    }
    Ok(
        (
            ActivityLog { user_id, user_action: "Profile Updated".to_string() },
            "User updated successfully".to_string(),
        ),
    )
}

/// The profile of account `user_id` with its role, for the authenticated caller. A failed
/// authentication is passed on unchanged and another caller is `Forbidden`, both without
/// profile data. Otherwise a missing account is `NotFound`, and a failed role read is an
/// internal error.
pub fn get_profile(
    auth: Result<i32, AppError>,
    user_id: i32,
    user: Option<UserProfileResponse>,
    role: Result<Option<admin::Role>, String>,
) -> (r: Result<PartialUserProfile, AppError>)
    ensures
        auth is Err ==> r == Err::<PartialUserProfile, AppError>(auth->Err_0),
        auth is Ok && auth->Ok_0 != user_id ==> r is Err && r->Err_0 is Forbidden,
        auth == Ok::<i32, AppError>(user_id) ==> match user {
            None => r is Err && r->Err_0 is NotFound,
            Some(u) => match role {
                Err(_) => r is Err && r->Err_0 is InternalServerError,
                Ok(None) => r is Err && r->Err_0 is NotFound,
                Ok(Some(ro)) => r is Ok && r->Ok_0.id == Some(u.id) && r->Ok_0.username == Some(
                    u.username,
                ) && r->Ok_0.email == Some(u.email) && r->Ok_0.role == Some(ro.role_name)
                    && r->Ok_0.password is None,
            },
        },
{
    if let Err(e) = require_self(auth, user_id) {
        return Err(e);
    }
    let u = match user {
        Some(u) => u,
        None => return Err(AppError::NotFound("User not found".to_string())),
    };
    let ro = match resolve_role(role) {
        Ok(ro) => ro,
        Err(e) => return Err(e),
    };
    Ok(
        PartialUserProfile {
            role: Some(ro.role_name),
            username: Some(u.username),
            email: Some(u.email),
            id: Some(u.id),
            password: None,
        },
    )
}

} // verus!
