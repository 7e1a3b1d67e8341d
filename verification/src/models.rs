//! Records of the cache's database, as the logic reads them, and the
//! authenticated entity of a request.

use vstd::prelude::*;

verus! {

/// A user account.
#[derive(Debug, Clone)]
pub struct User {
    pub id: i32,
    pub name: String,
    pub is_admin: bool,
    /// Creation time, as display text.
    pub created: String,
    pub email: Option<String>,
}

/// An API token (only its hash is stored).
#[derive(Debug, Clone)]
pub struct Token {
    pub id: i32,
    pub user_id: Option<i32>,
    pub token_hash: String,
    pub is_system: bool,
    pub description: Option<String>,
    /// Creation time, as display text.
    pub created: String,
    /// Whether the token may read from the cache.
    pub can_read: bool,
    /// Whether the token may write to the cache.
    pub can_write: bool,
}

/// A user to be inserted.
#[derive(Debug, Clone)]
pub struct NewUser {
    pub name: String,
    pub is_admin: bool,
}

/// A token to be inserted: the hash of the raw token, never the token.
#[derive(Debug, Clone)]
pub struct NewToken {
    pub user_id: Option<i32>,
    pub token_hash: String,
    pub is_system: bool,
    pub description: Option<String>,
    pub can_read: bool,
    pub can_write: bool,
}

/// Result of credential validation: the authenticated entity.
#[derive(Debug, Clone)]
pub enum AuthenticatedEntity {
    /// System token (admin-level, no associated user).
    System { token_id: i32, can_read: bool, can_write: bool },
    /// User token with its user.
    User { token_id: i32, user: User, can_read: bool, can_write: bool },
    /// Browser session of a user (from OpenID Connect login).
    Session { session_id: i32, user: User },
}

impl AuthenticatedEntity {
    /// Whether the entity has admin rights.
    pub open spec fn is_admin_spec(&self) -> bool {
        match *self {
            AuthenticatedEntity::System { .. } => true,
            AuthenticatedEntity::User { user, .. } => user.is_admin,
            AuthenticatedEntity::Session { user, .. } => user.is_admin,
        }
    }

    /// System tokens are admins; users and sessions are admins when their user is.
    pub fn is_admin(&self) -> (b: bool)
        ensures
            b == self.is_admin_spec(),
    {
        match self {
            AuthenticatedEntity::System { .. } => true,
            AuthenticatedEntity::User { user, .. } => user.is_admin,
            AuthenticatedEntity::Session { user, .. } => user.is_admin,
        }
    }

    /// The user behind the entity, if any.
    pub fn user(&self) -> (u: Option<&User>)
        ensures
            match *self {
                AuthenticatedEntity::System { .. } => u is None,
                AuthenticatedEntity::User { user, .. } => u == Some(&user),
                AuthenticatedEntity::Session { user, .. } => u == Some(&user),
            },
    {
        match self {
            AuthenticatedEntity::System { .. } => None,
            AuthenticatedEntity::User { user, .. } => Some(user),
            AuthenticatedEntity::Session { user, .. } => Some(user),
        }
    }

    /// The token behind the entity; a session has none.
    pub fn token_id(&self) -> (t: Option<i32>)
        ensures
            match *self {
                AuthenticatedEntity::System { token_id, .. } => t == Some(token_id),
                AuthenticatedEntity::User { token_id, .. } => t == Some(token_id),
                AuthenticatedEntity::Session { .. } => t is None,
            },
    {
        match self {
            AuthenticatedEntity::System { token_id, .. } => Some(*token_id),
            AuthenticatedEntity::User { token_id, .. } => Some(*token_id),
            AuthenticatedEntity::Session { .. } => None,
        }
    }

    /// Whether the entity may read: a token's own permission; a session
    /// acts for its user and may read.
    pub open spec fn can_read_spec(&self) -> bool {
        match *self {
            AuthenticatedEntity::System { can_read, .. } => can_read,
            AuthenticatedEntity::User { can_read, .. } => can_read,
            AuthenticatedEntity::Session { .. } => true,
        }
    }

    /// Whether the entity may write: a token's own permission; a session
    /// acts for its user and may write.
    pub open spec fn can_write_spec(&self) -> bool {
        match *self {
            AuthenticatedEntity::System { can_write, .. } => can_write,
            AuthenticatedEntity::User { can_write, .. } => can_write,
            AuthenticatedEntity::Session { .. } => true,
        }
    }

    /// Read permission of the entity.
    pub fn can_read(&self) -> (b: bool)
        ensures
            b == self.can_read_spec(),
    {
        match self {
            AuthenticatedEntity::System { can_read, .. } => *can_read,
            AuthenticatedEntity::User { can_read, .. } => *can_read,
            AuthenticatedEntity::Session { .. } => true,
        }
    }

    /// Write permission of the entity.
    pub fn can_write(&self) -> (b: bool)
        ensures
            b == self.can_write_spec(),
    {
        match self {
            AuthenticatedEntity::System { can_write, .. } => *can_write,
            AuthenticatedEntity::User { can_write, .. } => *can_write,
            AuthenticatedEntity::Session { .. } => true,
        }
    }
}

} // verus!
