//! User records, the follow graph's edge type, and the shapes the
//! identity collaborator exchanges with the core.

use vstd::prelude::*;

verus! {

#[derive(Clone, Copy, PartialEq, Eq, Structural, Debug)]
pub enum UserType {
    Free,
    Member,
    Writer,
    Publication,
}

/// A stored user row.
pub struct User {
    pub user_id: u64,
    pub email: String,
    pub username: String,
    pub display_name: Option<String>,
    pub bio: Option<String>,
    pub avatar_url: Option<String>,
    pub user_type: UserType,
    pub is_verified: bool,
    pub followers_count: u64,
    pub following_count: u64,
    pub created_at: i64,
    pub updated_at: i64,
}

/// A follow edge: `follower_id` follows `following_id`.
pub struct UserFollow {
    pub follower_id: u64,
    pub following_id: u64,
    pub created_at: i64,
}

/// A stored password hash, kept apart from the public user row.
pub struct Credential {
    pub user_id: u64,
    pub password_hash: String,
}

pub struct CreateUserRequest {
    pub email: String,
    pub username: String,
    pub password: String,
    pub display_name: Option<String>,
}

pub struct UpdateUserRequest {
    pub display_name: Option<String>,
    pub bio: Option<String>,
    pub avatar_url: Option<String>,
}

pub struct LoginRequest {
    pub email: String,
    pub password: String,
    pub remember_me: Option<bool>,
}

/// The public view of a user.
pub struct UserResponse {
    pub id: u64,
    pub email: String,
    pub username: String,
    pub display_name: Option<String>,
    pub bio: Option<String>,
    pub avatar_url: Option<String>,
    pub user_type: UserType,
    pub is_verified: bool,
    pub is_member: bool,
    pub followers_count: u64,
    pub following_count: u64,
    pub articles_count: u64,
    pub total_claps_received: u64,
    pub created_at: i64,
}

/// What a bearer credential asserts about its holder.
pub struct Claims {
    pub sub: String,
    pub username: String,
    pub user_type: UserType,
    pub exp: usize,
    pub iat: usize,
}

} // verus!
