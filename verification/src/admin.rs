//! Administration of users and tokens: request checks, permission rules,
//! and the records the server answers with.

use vstd::prelude::*;
use crate::auth::{hash_token, hash_token_spec};
use crate::error::AppError;
use crate::models::{AuthenticatedEntity, NewToken, NewUser, Token, User};
use crate::store_path::{byte_len, byte_len_exceeds};
use crate::text::{chars_of, clone_opt_string, opt_string_view, owned};

verus! {

/// Request to create a user.
#[derive(Debug, Clone)]
pub struct CreateUserRequest {
    pub name: String,
    pub is_admin: bool,
}

/// Request to update a user: only the given fields change; `email` of
/// `Some(None)` clears the email.
#[derive(Debug, Clone)]
pub struct UpdateUserRequest {
    pub name: Option<String>,
    pub is_admin: Option<bool>,
    pub email: Option<Option<String>>,
}

/// Request to create a token; without a user it is a system token.
#[derive(Debug, Clone)]
pub struct CreateTokenRequest {
    pub user_id: Option<i32>,
    pub description: Option<String>,
    pub can_read: Option<bool>,
    pub can_write: Option<bool>,
}

/// Request to update a token's description and permissions.
#[derive(Debug, Clone)]
pub struct UpdateTokenRequest {
    pub description: Option<String>,
    pub can_read: Option<bool>,
    pub can_write: Option<bool>,
}

/// A user as the admin endpoints show it.
#[derive(Debug, Clone)]
pub struct AdminUserResponse {
    pub id: i32,
    pub name: String,
    pub email: Option<String>,
    pub is_admin: bool,
    pub created: String,
}

/// A token as the admin endpoints show it, with its user's name.
#[derive(Debug, Clone)]
pub struct AdminTokenResponse {
    pub id: i32,
    pub user_id: Option<i32>,
    pub user_name: Option<String>,
    pub is_system: bool,
    pub description: Option<String>,
    pub created: String,
    pub can_read: bool,
    pub can_write: bool,
}

/// A newly created token: the raw token is shown this once.
#[derive(Debug, Clone)]
pub struct CreateTokenResponse {
    pub id: i32,
    pub token: String,
}

/// A user's id and name.
#[derive(Debug, Clone)]
pub struct UserInfo {
    pub id: i32,
    pub name: String,
}

/// What the server tells a caller about its own credential.
#[derive(Debug, Clone)]
pub struct SelfResponse {
    pub is_admin: bool,
    pub credential_type: String,
    pub user: Option<UserInfo>,
    pub can_read: bool,
    pub can_write: bool,
}

/// Longest user name, in bytes.
pub const MAX_USER_NAME_BYTES: usize = 128;
/// Longest email address, in bytes.
pub const MAX_EMAIL_BYTES: usize = 256;

/// A user name is accepted when it is not empty and has at most 128 bytes.
pub open spec fn user_name_ok(name: Seq<char>) -> bool {
    name.len() > 0 && byte_len(name) <= MAX_USER_NAME_BYTES
}

/// Whether `e` is a bad-request error with message `m`.
pub open spec fn is_bad_request_with(e: AppError, m: Seq<char>) -> bool {
    e matches AppError::BadRequest(s) && s@ == m
}

/// Whether `e` is a not-found error with message `m`.
pub open spec fn is_not_found_with(e: AppError, m: Seq<char>) -> bool {
    e matches AppError::NotFound(s) && s@ == m
}

/// Check the name of a user to be created or renamed.
pub fn validate_user_name(name: &str) -> (r: Result<(), AppError>)
    ensures
        user_name_ok(name@) ==> r is Ok,
        !user_name_ok(name@) ==> (r matches Err(e) && is_bad_request_with(
            e,
            "Name must be 1-128 characters"@,
        )),
{
    let v = chars_of(name);
    if v.len() == 0 || byte_len_exceeds(&v, MAX_USER_NAME_BYTES) {
        return Err(AppError::BadRequest(owned("Name must be 1-128 characters")));
    }
    Ok(())
}

/// The user to insert for a valid creation request.
pub fn new_user(req: &CreateUserRequest) -> (r: Result<NewUser, AppError>)
    ensures
        user_name_ok(req.name@) ==> (r matches Ok(u) && u.name@ == req.name@ && u.is_admin
            == req.is_admin),
        !user_name_ok(req.name@) ==> (r matches Err(e) && is_bad_request_with(
            e,
            "Name must be 1-128 characters"@,
        )),
{
    validate_user_name(req.name.as_str())?;
    Ok(NewUser { name: req.name.clone(), is_admin: req.is_admin })
}

/// The error, if any, of an update request on a user that does or does not
/// exist: a missing user first, then a bad name, then an email over 256
/// bytes.
pub open spec fn user_update_error(exists: bool, req: UpdateUserRequest) -> Option<(bool, Seq<char>)> {
    if !exists {
        Some((false, "User not found"@))
    } else if req.name is Some && !user_name_ok(req.name->0@) {
        Some((true, "Name must be 1-128 characters"@))
    } else if (req.email matches Some(Some(e)) && byte_len(e@) > MAX_EMAIL_BYTES) {
        Some((true, "Email must be at most 256 characters"@))
    } else {
        None
    }
}

/// Check an update request. `exists` says whether the user is there. The
/// error is `NotFound` for a missing user and `BadRequest` otherwise.
pub fn check_user_update(exists: bool, req: &UpdateUserRequest) -> (r: Result<(), AppError>)
    ensures
        match user_update_error(exists, *req) {
            None => r is Ok,
            Some((bad, m)) => r matches Err(e) && (if bad {
                is_bad_request_with(e, m)
            } else {
                is_not_found_with(e, m)
            }),
        },
{
    if !exists {
        return Err(AppError::NotFound(owned("User not found")));
    }
    if let Some(name) = &req.name {
        validate_user_name(name.as_str())?;
    }
    if let Some(Some(email)) = &req.email {
        let v = chars_of(email.as_str());
        if byte_len_exceeds(&v, MAX_EMAIL_BYTES) {
            return Err(AppError::BadRequest(owned("Email must be at most 256 characters")));
        }
    }
    Ok(())
}

/// The kind and permissions of a token to be created.
#[derive(Debug, Clone, Copy, PartialEq, Eq)]
pub struct TokenGrant {
    pub is_system: bool,
    pub can_read: bool,
    pub can_write: bool,
}

/// Unset permissions default to granted.
pub open spec fn or_true(b: Option<bool>) -> bool {
    match b {
        Some(x) => x,
        None => true,
    }
}

/// The grant of a creation request: a system token when no user is given;
/// each permission as requested, granted when unset; refused when it would
/// grant neither.
pub fn plan_token(req: &CreateTokenRequest) -> (r: Result<TokenGrant, AppError>)
    ensures
        (or_true(req.can_read) || or_true(req.can_write)) ==> r == Ok::<TokenGrant, AppError>(
            TokenGrant {
                is_system: req.user_id is None,
                can_read: or_true(req.can_read),
                can_write: or_true(req.can_write),
            },
        ),
        !(or_true(req.can_read) || or_true(req.can_write)) ==> (r matches Err(e)
            && is_bad_request_with(e, "Token must have at least one of can_read or can_write"@)),
{
    let is_system = req.user_id.is_none();
    let can_read = match req.can_read {
        Some(b) => b,
        None => true,
    };
    let can_write = match req.can_write {
        Some(b) => b,
        None => true,
    };
    if !can_read && !can_write {
        return Err(
            AppError::BadRequest(owned("Token must have at least one of can_read or can_write")),
        );
    }
    Ok(TokenGrant { is_system, can_read, can_write })
}

/// A token for a user that does not exist is refused.
pub fn require_token_user(user_exists: bool) -> (r: Result<(), AppError>)
    ensures
        user_exists ==> r is Ok,
        !user_exists ==> (r matches Err(e) && is_bad_request_with(e, "User not found"@)),
{
    if user_exists {
        Ok(())
    } else {
        Err(AppError::BadRequest(owned("User not found")))
    }
}

/// The token record to insert for `raw_token`: only its hash is stored.
pub fn new_token(req: &CreateTokenRequest, grant: TokenGrant, raw_token: &str) -> (t: NewToken)
    ensures
        t.user_id == req.user_id,
        t.token_hash@ == hash_token_spec(raw_token@),
        t.is_system == grant.is_system,
        opt_string_view(t.description) == opt_string_view(req.description),
        t.can_read == grant.can_read,
        t.can_write == grant.can_write,
{
    NewToken {
        user_id: req.user_id,
        token_hash: hash_token(raw_token),
        is_system: grant.is_system,
        description: clone_opt_string(&req.description),
        can_read: grant.can_read,
        can_write: grant.can_write,
    }
}

/// Unset permissions keep their current value.
pub open spec fn or_keep_bool(b: Option<bool>, current: bool) -> bool {
    match b {
        Some(x) => x,
        None => current,
    }
}

/// The permissions an update sets: none when it names neither; otherwise
/// each as requested or kept, refused when neither would remain.
pub fn token_permission_update(existing: &Token, req: &UpdateTokenRequest) -> (r: Result<
    Option<(bool, bool)>,
    AppError,
>)
    ensures
        (req.can_read is None && req.can_write is None) ==> r == Ok::<
            Option<(bool, bool)>,
            AppError,
        >(None),
        !(req.can_read is None && req.can_write is None) ==> ({
            let rd = or_keep_bool(req.can_read, existing.can_read);
            let wr = or_keep_bool(req.can_write, existing.can_write);
            if rd || wr {
                r == Ok::<Option<(bool, bool)>, AppError>(Some((rd, wr)))
            } else {
                r matches Err(e) && is_bad_request_with(
                    e,
                    "Token must have at least one of can_read or can_write"@,
                )
            }
        }),
{
    if req.can_read.is_none() && req.can_write.is_none() {
        return Ok(None);
    }
    let rd = match req.can_read {
        Some(b) => b,
        None => existing.can_read,
    };
    let wr = match req.can_write {
        Some(b) => b,
        None => existing.can_write,
    };
    if !rd && !wr {
        return Err(
            AppError::BadRequest(owned("Token must have at least one of can_read or can_write")),
        );
    }
    Ok(Some((rd, wr)))
}

/// A user as the admin endpoints show it.
pub fn admin_user_response(u: &User) -> (r: AdminUserResponse)
    ensures
        r.id == u.id,
        r.name@ == u.name@,
        opt_string_view(r.email) == opt_string_view(u.email),
        r.is_admin == u.is_admin,
        r.created@ == u.created@,
{
    AdminUserResponse {
        id: u.id,
        name: u.name.clone(),
        email: clone_opt_string(&u.email),
        is_admin: u.is_admin,
        created: u.created.clone(),
    }
}

/// A token as the admin endpoints show it, with the name of its user when
/// it has one.
pub fn admin_token_response(t: &Token, user: Option<&User>) -> (r: AdminTokenResponse)
    ensures
        r.id == t.id,
        r.user_id == t.user_id,
        opt_string_view(r.user_name) == (match user {
            Some(u) => Some(u.name@),
            None => None,
        }),
        r.is_system == t.is_system,
        opt_string_view(r.description) == opt_string_view(t.description),
        r.created@ == t.created@,
        r.can_read == t.can_read,
        r.can_write == t.can_write,
{
    AdminTokenResponse {
        id: t.id,
        user_id: t.user_id,
        user_name: match user {
            Some(u) => Some(u.name.clone()),
            None => None,
        },
        is_system: t.is_system,
        description: clone_opt_string(&t.description),
        created: t.created.clone(),
        can_read: t.can_read,
        can_write: t.can_write,
    }
}

/// A token looked up for an update must exist.
pub fn require_token<T>(found: Option<T>) -> (r: Result<T, AppError>)
    ensures
        match found {
            Some(t) => r == Ok::<T, AppError>(t),
            None => r matches Err(e) && is_not_found_with(e, "Token not found"@),
        },
{
    match found {
        Some(t) => Ok(t),
        None => Err(AppError::NotFound(owned("Token not found"))),
    }
}

/// The kind of credential, as `/self` names it.
pub open spec fn credential_type_spec(e: AuthenticatedEntity) -> Seq<char> {
    match e {
        AuthenticatedEntity::System { .. } => "system"@,
        AuthenticatedEntity::User { .. } => "user"@,
        AuthenticatedEntity::Session { .. } => "session"@,
    }
}

/// What `/self` answers for an authenticated entity: its kind, its user's
/// id and name, whether it is an admin, and its permissions.
pub fn self_response(e: &AuthenticatedEntity) -> (r: SelfResponse)
    ensures
        r.is_admin == e.is_admin_spec(),
        r.credential_type@ == credential_type_spec(*e),
        match *e {
            AuthenticatedEntity::System { .. } => r.user is None,
            AuthenticatedEntity::User { user, .. } => r.user matches Some(i) && i.id == user.id
                && i.name@ == user.name@,
            AuthenticatedEntity::Session { user, .. } => r.user matches Some(i) && i.id == user.id
                && i.name@ == user.name@,
        },
        r.can_read == e.can_read_spec(),
        r.can_write == e.can_write_spec(),
{
    let (credential_type, user) = match e {
        AuthenticatedEntity::System { .. } => (owned("system"), None),
        AuthenticatedEntity::User { user, .. } => (
            owned("user"),
            Some(UserInfo { id: user.id, name: user.name.clone() }),
        ),
        AuthenticatedEntity::Session { user, .. } => (
            owned("session"),
            Some(UserInfo { id: user.id, name: user.name.clone() }),
        ),
    };
    SelfResponse {
        is_admin: e.is_admin(),
        credential_type,
        user,
        can_read: e.can_read(),
        can_write: e.can_write(),
    }
}

} // verus!
