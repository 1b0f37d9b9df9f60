//! Per-request access decisions: authentication, self-access and role checks.
use crate::auth::{
    hs256_signature, is_token_refusal, signed_part, token_accepts, token_of, validate_jwt,
    with_signature,
};
use crate::errors::AppError;
use crate::routes::admin::{Role, RoleId};
use vstd::prelude::*;

verus! {

/// The first check of every protected route: the identity that a bearer token proves at
/// `now`. A token proves at most one identity.
pub fn authenticate(secret: &[u8], bearer: &str, now: i64) -> (r: Result<i32, AppError>)
    ensures
        match r {
            Ok(id) => token_accepts(secret@, bearer@, now as int, id as int) && forall|other: i32|
                #[trigger] token_accepts(secret@, bearer@, now as int, other as int) ==> other == id,
            Err(e) => is_token_refusal(e) && forall|id: i32| !#[trigger] token_accepts(
                secret@,
                bearer@,
                now as int,
                id as int,
            ),
        },
        forall|id: i32, exp: i64| #[trigger] token_of(secret@, id as int, exp as int) == bearer@ ==> (
        if now <= exp {
            r == Ok::<i32, AppError>(id)
        } else {
            r is Err
        }),
        forall|id: i32, exp: i64, sig: Seq<char>| #[trigger]
            with_signature(id as int, exp as int, sig) == bearer@ && sig != hs256_signature(
                secret@,
                signed_part(id as int, exp as int),
            ) ==> r is Err,
{
    let r = validate_jwt(secret, bearer, now);
    assert forall|id: i32| #[trigger] token_accepts(secret@, bearer@, now as int, id as int) implies r
        == Ok::<i32, AppError>(id) by {
        let exp = choose|exp: i64|
            now <= exp && bearer@ == token_of(secret@, id as int, exp as int);
        assert(token_of(secret@, id as int, exp as int) == bearer@);
    }
    r
}

/// Requires that the authenticated identity is `target`: a failed authentication stays
/// `Unauthorized`, another identity is `Forbidden`.
pub fn require_self(auth: Result<i32, AppError>, target: i32) -> (r: Result<i32, AppError>)
    ensures
        match auth {
            Ok(id) => if id == target {
                r == Ok::<i32, AppError>(id)
            } else {
                r is Err && r->Err_0 is Forbidden
            },
            Err(e) => r == Err::<i32, AppError>(e),
        },
{
    match auth {
        Ok(id) => if id == target {
            Ok(id)
        } else {
            Err(AppError::Forbidden("Access denied".to_string()))
        },
        Err(e) => Err(e),
    }
}

/// Authenticates a bearer token at `now` and requires that it proves `target`: a token
/// issued for another identity never passes, and is `Forbidden` while it is valid.
pub fn authorize_self(secret: &[u8], bearer: &str, target: i32, now: i64) -> (r: Result<
    i32,
    AppError,
>)
    ensures
        r is Ok <==> token_accepts(secret@, bearer@, now as int, target as int),
        r is Ok ==> r->Ok_0 == target,
        r is Err ==> (r->Err_0 is Forbidden <==> exists|id: i32| #[trigger]
            token_accepts(secret@, bearer@, now as int, id as int)),
        r is Err ==> (is_token_refusal(r->Err_0) || r->Err_0 is Forbidden),
        forall|other: i32| #[trigger] token_accepts(secret@, bearer@, now as int, other as int)
            && other != target ==> r is Err && r->Err_0 is Forbidden,
        forall|id: i32, exp: i64| #[trigger] token_of(secret@, id as int, exp as int) == bearer@
            && id != target ==> r is Err,
        forall|id: i32, exp: i64, sig: Seq<char>| #[trigger]
            with_signature(id as int, exp as int, sig) == bearer@ && sig != hs256_signature(
                secret@,
                signed_part(id as int, exp as int),
            ) ==> r is Err && is_token_refusal(r->Err_0),
{
    let auth = authenticate(secret, bearer, now);
    require_self(auth, target)
}

/// The role of an identity from a fresh directory read: a failed read is an internal
/// error, kept apart from an identity that has no record, which is `NotFound`.
pub fn resolve_role(lookup: Result<Option<Role>, String>) -> (r: Result<Role, AppError>)
    ensures
        match lookup {
            Ok(Some(role)) => r == Ok::<Role, AppError>(role),
            Ok(None) => r is Err && r->Err_0 is NotFound,
            Err(_) => r is Err && r->Err_0 is InternalServerError,
        },
{
    match lookup {
        Ok(Some(role)) => Ok(role),
        Ok(None) => Err(AppError::NotFound("Role not found".to_string())),
        Err(msg) => Err(AppError::InternalServerError(msg)),
    }
}

/// Requires that the authenticated identity's freshly read role is `required`: a failed
/// authentication is passed on unchanged, a failed read is an internal error, a missing
/// record `NotFound`, and any other role `Forbidden`.
pub fn authorize_role(
    auth: Result<i32, AppError>,
    lookup: Result<Option<Role>, String>,
    required: RoleId,
) -> (r: Result<i32, AppError>)
    ensures
        match auth {
            Err(e) => r == Err::<i32, AppError>(e),
            Ok(id) => match lookup {
                Err(_) => r is Err && r->Err_0 is InternalServerError,
                Ok(None) => r is Err && r->Err_0 is NotFound,
                Ok(Some(found)) => if found.id == required.spec_value() {
                    r == Ok::<i32, AppError>(id)
                } else {
                    r is Err && r->Err_0 is Forbidden
                },
            },
        },
{
    let id = match auth {
        Ok(id) => id,
        Err(e) => return Err(e),
    };
    match resolve_role(lookup) {
        Ok(found) => {
            if found.id == required.value() {
                Ok(id)
            } else {
                Err(AppError::Forbidden("Insufficient role".to_string()))
            }
        },
        Err(e) => Err(e),
    }
}

} // verus!
