//! Users: sign-up, sign-in and profile requests.
use vstd::prelude::*;

verus! {

/// A request to create a user.
#[derive(Debug)]
pub struct NewUser {
    pub user_name: String,
    pub email: String,
    pub password: String,
}

/// A request to change a user's profile.
#[derive(Debug)]
pub struct UpdateUser {
    pub id: String,
    pub username: String,
    pub email: String,
    pub password: String,
    pub bio: String,
    pub image: Option<String>,
}

/// The answer to creating a user.
#[derive(Debug)]
pub struct CreateUser {
    pub email: String,
    pub token: String,
    pub user_name: String,
}

/// A user found by a search.
#[derive(Debug)]
pub struct SearchResult {
    pub user_name: String,
    pub email: String,
}

/// A sign-in request.
#[derive(Debug)]
pub struct LoginUser {
    pub email: String,
    pub password: String,
}

/// An order listing request; it carries no fields.
pub struct OrdersRequest {}

/// A handle for user listings; it carries no state.
pub struct UserPageClient {}

} // verus!
