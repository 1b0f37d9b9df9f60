use backend::auth::{validate_jwt, verify_password};
use backend::errors::AppError;
use backend::models::Users;
use backend::routes::admin::Role;
use backend::routes::login::{login, LoginInput};
use backend::routes::profile::{
    get_profile, patch_profile, profile_update_outcome, PartialUserProfile, UserProfile,
    UserProfileResponse,
};
use backend::routes::signup::{created_response, sign_up, SignUpInput};
use backend::routes::validate::validate_token;

const SECRET: &[u8] = b"accounts-secret";
const NOW: i64 = 1_700_000_000;

fn stored(id: i32, email: &str, hash: String) -> Users {
    Users { id, username: "name".to_string(), email: email.to_string(), password: hash }
}

#[test]
fn signup_login_scenario() {
    let mut directory: Vec<Users> = Vec::new();
    let input = SignUpInput {
        username: "a".to_string(),
        email: "a@x.com".to_string(),
        password: "pw1".to_string(),
    };
    let taken = directory.iter().any(|u| u.email == input.email);
    let rec = sign_up(&input, taken).unwrap();
    assert!(created_response().created);
    assert_eq!(rec.password.len(), 60);
    assert!(rec.password.starts_with("$2b$12$"));
    assert_ne!(rec.password, "pw1");
    directory.push(Users { id: 1, username: rec.username, email: rec.email, password: rec.password });

    let found = directory.iter().find(|u| u.email == "a@x.com").map(|u| stored(u.id, &u.email, u.password.clone()));
    let ok = login(SECRET, &LoginInput { email: "a@x.com".to_string(), password: "pw1".to_string() }, found, NOW)
        .unwrap();
    assert_eq!(ok.user_id, Some(1));
    let token = ok.token.unwrap();
    assert_eq!(validate_jwt(SECRET, &token, NOW + 1).unwrap(), 1);

    let found = directory.iter().find(|u| u.email == "a@x.com").map(|u| stored(u.id, &u.email, u.password.clone()));
    let bad = login(SECRET, &LoginInput { email: "a@x.com".to_string(), password: "pw2".to_string() }, found, NOW);
    assert!(matches!(bad, Err(AppError::Unauthorized(_))));

    let taken = directory.iter().any(|u| u.email == input.email);
    assert!(matches!(sign_up(&input, taken), Err(AppError::BadRequest(_))));
    assert_eq!(directory.len(), 1);
}

#[test]
fn login_unknown_email_is_not_found() {
    let input = LoginInput { email: "b@x.com".to_string(), password: "pw".to_string() };
    assert!(matches!(login(SECRET, &input, None, NOW), Err(AppError::NotFound(_))));
}

#[test]
fn login_token_proves_the_account() {
    let hash = bcrypt::hash("pw", 4).unwrap();
    let input = LoginInput { email: "c@x.com".to_string(), password: "pw".to_string() };
    let r = login(SECRET, &input, Some(stored(8, "c@x.com", hash)), NOW).unwrap();
    assert_eq!(validate_jwt(SECRET, r.token.as_deref().unwrap(), NOW).unwrap(), 8);
    assert_eq!(r.user_id, Some(8));
    assert!(r.token.is_some());
}

fn denied() -> Result<i32, AppError> {
    Err(AppError::Unauthorized("Invalid token".to_string()))
}

#[test]
fn validate_token_needs_existing_account() {
    let ok = validate_token(Ok(4), true).unwrap();
    assert_eq!(ok.user_id, Some(4));
    assert_eq!(ok.message, "Token is valid");
    assert!(matches!(validate_token(Ok(4), false), Err(AppError::NotFound(_))));
    assert!(matches!(validate_token(denied(), true), Err(AppError::Unauthorized(_))));
}

fn current() -> UserProfile {
    UserProfile {
        username: "old".to_string(),
        email: "o@x.com".to_string(),
        password: "$2b$04$storedhash".to_string(),
    }
}

fn no_change() -> PartialUserProfile {
    PartialUserProfile { id: None, username: None, email: None, password: None, role: None }
}

#[test]
fn profile_patch_keeps_hash_without_password() {
    let mut patch = no_change();
    patch.email = Some("n@x.com".to_string());
    let p = patch_profile(Ok(3), 3, patch, Some(current())).unwrap();
    assert_eq!(p.username, "old");
    assert_eq!(p.email, "n@x.com");
    assert_eq!(p.password, "$2b$04$storedhash");
}

#[test]
fn profile_patch_by_other_identity_is_forbidden() {
    let mut patch = no_change();
    patch.username = Some("hijack".to_string());
    assert!(matches!(patch_profile(Ok(4), 3, patch, Some(current())), Err(AppError::Forbidden(_))));
    assert!(matches!(patch_profile(denied(), 3, no_change(), Some(current())), Err(AppError::Unauthorized(_))));
}

#[test]
fn profile_patch_hashes_new_password_and_needs_account() {
    let mut patch = no_change();
    patch.username = Some("x".to_string());
    patch.password = Some("pw9".to_string());
    let p = patch_profile(Ok(3), 3, patch, Some(current())).unwrap();
    assert_eq!(p.username, "x");
    assert!(verify_password("pw9", &p.password));
    assert!(matches!(patch_profile(Ok(3), 3, no_change(), None), Err(AppError::NotFound(_))));
}

#[test]
fn profile_update_outcome_logs_and_replies() {
    let (log, reply) = profile_update_outcome(3, 1).unwrap();
    assert_eq!(log.user_id, 3);
    assert_eq!(log.user_action, "Profile Updated");
    assert_eq!(reply, "User updated successfully");
    assert!(matches!(profile_update_outcome(3, 0), Err(AppError::InternalServerError(_))));
}

fn public() -> UserProfileResponse {
    UserProfileResponse { username: "u".to_string(), email: "u@x.com".to_string(), id: 3 }
}

fn admin_role() -> Role {
    Role { username: "u".to_string(), id: 2, role_name: "admin".to_string() }
}

#[test]
fn profile_view_carries_role() {
    let p = get_profile(Ok(3), 3, Some(public()), Ok(Some(admin_role()))).unwrap();
    assert_eq!(p.id, Some(3));
    assert_eq!(p.role.as_deref(), Some("admin"));
    assert!(p.password.is_none());
    assert!(matches!(get_profile(Ok(3), 3, None, Ok(Some(admin_role()))), Err(AppError::NotFound(_))));
    assert!(matches!(get_profile(Ok(3), 3, Some(public()), Ok(None)), Err(AppError::NotFound(_))));
    assert!(matches!(
        get_profile(Ok(3), 3, Some(public()), Err("down".to_string())),
        Err(AppError::InternalServerError(_))
    ));
}

#[test]
fn profile_view_for_other_identity_is_forbidden() {
    assert!(matches!(get_profile(Ok(4), 3, Some(public()), Ok(Some(admin_role()))), Err(AppError::Forbidden(_))));
    assert!(matches!(get_profile(denied(), 3, Some(public()), Ok(Some(admin_role()))), Err(AppError::Unauthorized(_))));
}
