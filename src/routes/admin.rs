//! Roles, account statuses and the administrator's endpoints.
use crate::auth::{bcrypt_cost12_form, hash_password, password_matches};
use crate::errors::AppError;
use crate::guard::{authorize_role, resolve_role};
use crate::routes::profile::UserProfile;
use crate::text::{lower_of, lowercase, same_text, trim_text, trimmed};
use vstd::prelude::*;

verus! {

/// A user's name, role id and role name, as the role lookup joins them.
pub struct Role {
    pub username: String,
    pub id: i32,
    pub role_name: String,
}

/// The closed set of roles, from least to most specialised.
#[derive(Debug, Clone, Copy, PartialEq, Eq, Structural)]
pub enum RoleId {
    User,
    Admin,
    Moderator,
}

impl RoleId {
    pub open spec fn spec_value(self) -> i32 {
        match self {
            RoleId::User => 1,
            RoleId::Admin => 2,
            RoleId::Moderator => 3,
        }
    }

    /// The id under which the directory stores this role.
    pub fn value(self) -> (r: i32)
        ensures
            r == self.spec_value(),
    {
        match self {
            RoleId::User => 1,
            RoleId::Admin => 2,
            RoleId::Moderator => 3,
        }
    }
}

/// The closed set of account statuses.
#[derive(Debug, Clone, Copy, PartialEq, Eq, Structural)]
pub enum StatusId {
    Active,
    Restricted,
    Banned,
}

impl StatusId {
    pub open spec fn spec_value(self) -> i32 {
        match self {
            StatusId::Active => 1,
            StatusId::Restricted => 2,
            StatusId::Banned => 3,
        }
    }

    /// The id under which the directory stores this status.
    pub fn value(self) -> (r: i32)
        ensures
            r == self.spec_value(),
    {
        match self {
            StatusId::Active => 1,
            StatusId::Restricted => 2,
            StatusId::Banned => 3,
        }
    }
}

/// One row of the administrator's user listing.
pub struct User {
    pub id: i32,
    pub username: String,
    pub email: String,
    pub role: String,
    pub account_status: String,
}

/// The fields that an administrator may change on an account; `None` keeps a field.
pub struct PartialUserProfile {
    pub username: Option<String>,
    pub email: Option<String>,
    pub password: Option<String>,
    pub role_name: Option<String>,
    pub account_status: Option<String>,
}

/// The role that an already folded name selects; anything unknown is the plain user.
pub open spec fn role_of_folded(name: Seq<char>) -> RoleId {
    if name == "admin"@ {
        RoleId::Admin
    } else if name == "moderator"@ {
        RoleId::Moderator
    } else {
        RoleId::User
    }
}

/// The status that an already folded name selects; anything unknown is active.
pub open spec fn status_of_folded(name: Seq<char>) -> StatusId {
    if name == "restricted"@ {
        StatusId::Restricted
    } else if name == "banned"@ {
        StatusId::Banned
    } else {
        StatusId::Active
    }
}

/// The role id of a free-text role name: trimmed, then lowercased.
pub open spec fn role_id_spec(name: Seq<char>) -> i32 {
    role_of_folded(lower_of(trimmed(name))).spec_value()
}

/// The status id of a free-text status name: trimmed, then lowercased.
pub open spec fn status_id_spec(name: Seq<char>) -> i32 {
    status_of_folded(lower_of(trimmed(name))).spec_value()
}

/// The role id for a name that is already trimmed and lowercased.
pub fn role_id_of_folded(name: &str) -> (r: i32)
    ensures
        r == role_of_folded(name@).spec_value(),
{
    if same_text(name, "admin") {
        RoleId::Admin.value()
    } else if same_text(name, "moderator") {
        RoleId::Moderator.value()
    } else {
        RoleId::User.value()
    }
}

/// The status id for a name that is already trimmed and lowercased.
pub fn status_id_of_folded(name: &str) -> (r: i32)
    ensures
        r == status_of_folded(name@).spec_value(),
{
    if same_text(name, "restricted") {
        StatusId::Restricted.value()
    } else if same_text(name, "banned") {
        StatusId::Banned.value()
    } else {
        StatusId::Active.value()
    }
}

/// Maps a free-text role name to its id, ignoring case and surrounding white space;
/// an unknown name falls back to the least privileged role.
pub fn get_role_id(role_name: &str) -> (r: i32)
    ensures
        r == role_id_spec(role_name@),
{
    let folded = lowercase(trim_text(role_name));
    role_id_of_folded(folded.as_str())
}

/// Maps a free-text status name to its id, ignoring case and surrounding white space;
/// an unknown name falls back to the active status.
pub fn get_status_id(account_status: &str) -> (r: i32)
    ensures
        r == status_id_spec(account_status@),
{
    let folded = lowercase(trim_text(account_status));
    status_id_of_folded(folded.as_str())
}

/// Names that differ only in surrounding white space map to the same role and status.
pub proof fn lemma_surrounding_space_ignored(a: Seq<char>, b: Seq<char>)
    requires
        trimmed(a) == trimmed(b),
    ensures
        role_id_spec(a) == role_id_spec(b),
        status_id_spec(a) == status_id_spec(b),
{
}

/// Every name, recognised or not, maps to one of the closed set of ids.
pub proof fn lemma_ids_in_closed_set(name: Seq<char>)
    ensures
        1 <= role_id_spec(name) <= 3,
        1 <= status_id_spec(name) <= 3,
{
}

/// The caller's role: a failed authentication is passed on unchanged; then a failed
/// directory read is an internal error and a missing record `NotFound`.
pub fn get_role(auth: Result<i32, AppError>, lookup: Result<Option<Role>, String>) -> (r: Result<
    Role,
    AppError,
>)
    ensures
        match auth {
            Err(e) => r == Err::<Role, AppError>(e),
            Ok(_) => match lookup {
                Ok(Some(role)) => r == Ok::<Role, AppError>(role),
                Ok(None) => r is Err && r->Err_0 is NotFound,
                Err(_) => r is Err && r->Err_0 is InternalServerError,
            },
        },
{
    match auth {
        Ok(_) => resolve_role(lookup),
        Err(e) => Err(e),
    }
}

/// Whether the caller is authenticated and the directory names their role `admin`.
pub fn is_admin(auth: &Result<i32, AppError>, lookup: &Result<Option<Role>, String>) -> (r: bool)
    ensures
        r == (auth is Ok && lookup is Ok && lookup->Ok_0 is Some && lookup->Ok_0->Some_0.role_name@
            == "admin"@),
{
    if auth.is_err() {
        return false;
    }
    match lookup {
        Ok(Some(role)) => same_text(role.role_name.as_str(), "admin"),
        _ => false,
    }
}

/// The admission check of the administrator's endpoints: the caller must be authenticated and
/// hold the administrator role.
pub fn require_admin(auth: Result<i32, AppError>, lookup: Result<Option<Role>, String>) -> (r:
    Result<i32, AppError>)
    ensures
        match auth {
            Err(e) => r == Err::<i32, AppError>(e),
            Ok(id) => match lookup {
                Err(_) => r is Err && r->Err_0 is InternalServerError,
                Ok(None) => r is Err && r->Err_0 is NotFound,
                Ok(Some(found)) => if found.id == RoleId::Admin.spec_value() {
                    r == Ok::<i32, AppError>(id)
                } else {
                    r is Err && r->Err_0 is Forbidden
                },
            },
        },
{
    authorize_role(auth, lookup, RoleId::Admin)
}

/// The administrator's listing, once admitted: a denial is passed on unchanged and
/// lists nobody; an empty listing is `NotFound`.
pub fn get_users(gate: Result<i32, AppError>, users: Vec<User>) -> (r: Result<Vec<User>, AppError>)
    ensures
        match gate {
            Err(e) => r == Err::<Vec<User>, AppError>(e),
            Ok(_) => if users@.len() == 0 {
                r is Err && r->Err_0 is NotFound
            } else {
                r == Ok::<Vec<User>, AppError>(users)
            },
        },
{
    if let Err(e) = gate {
        return Err(e);
    }
    if users.len() == 0 {
        Err(AppError::NotFound("Users not found".to_string()))
    } else {
        Ok(users)
    }
}

/// The changes to write to one account; `None` keeps the stored value.
pub struct UserUpdate {
    pub username: Option<String>,
    pub email: Option<String>,
    pub password_hash: Option<String>,
    pub role_id: Option<i32>,
    pub status_id: Option<i32>,
}

/// Turns an administrator's patch into the changes to write, once admitted: a denial
/// is passed on unchanged and writes nothing, a missing account is `NotFound`; otherwise
/// a new password is hashed and role and status names become ids.
pub fn patch_users(
    gate: Result<i32, AppError>,
    target: Option<UserProfile>,
    payload: PartialUserProfile,
) -> (r: Result<UserUpdate, AppError>)
    ensures
        gate is Err ==> r == Err::<UserUpdate, AppError>(gate->Err_0),
        gate is Ok && target is None ==> r is Err && r->Err_0 is NotFound,
        gate is Ok && target is Some ==> match r {
            Ok(u) => {
                &&& u.username == payload.username
                &&& u.email == payload.email
                &&& (payload.password is None <==> u.password_hash is None)
                &&& (payload.password is Some ==> password_matches(
                    payload.password->Some_0@,
                    u.password_hash->Some_0@,
                ) && bcrypt_cost12_form(u.password_hash->Some_0@))
                &&& u.role_id == match payload.role_name {
                    Some(n) => Some(role_id_spec(n@)),
                    None => None,
                }
                &&& u.status_id == match payload.account_status {
                    Some(n) => Some(status_id_spec(n@)),
                    None => None,
                }
            },
            Err(e) => e is InternalServerError && payload.password is Some,
        },
{
    if let Err(e) = gate {
        return Err(e);
    }
    if target.is_none() {
        return Err(AppError::NotFound("User not found".to_string()));
    }
    let password_hash = match &payload.password {
        Some(p) => match hash_password(p.as_str()) {
            Ok(h) => Some(h),
            Err(e) => return Err(e),
        },
        None => None,
    };
    let role_id = match &payload.role_name {
        Some(n) => Some(get_role_id(n.as_str())),
        None => None,
    };
    let status_id = match &payload.account_status {
        Some(n) => Some(get_status_id(n.as_str())),
        None => None,
    };
    Ok(
        UserUpdate {
            username: payload.username,
            email: payload.email,
            password_hash,
            role_id,
            status_id,
        },
    )
}

/// The answer to an update that touched `rows_affected` rows.
pub fn update_outcome(rows_affected: u64) -> (r: Result<String, AppError>)
    ensures
        rows_affected == 0 ==> r is Err && r->Err_0 is InternalServerError
            && r->Err_0.spec_message() == "User not updated"@,
        rows_affected > 0 ==> r is Ok && r->Ok_0@ == "User updated"@,
{
    if rows_affected == 0 {
        Err(AppError::InternalServerError("User not updated".to_string()))
    } else {
        Ok("User updated".to_string())
    }
}

} // verus!
