use vstd::prelude::*;

verus! {

/// The id that the user route assigns to every new user.
pub const USER_ID: u64 = 100;

/// Body of a user creation request.
#[derive(Debug, PartialEq, Eq, Clone)]
pub struct CreateUser {
    pub username: String,
}

/// A created user.
#[derive(Debug, PartialEq, Eq, Clone)]
pub struct User {
    pub id: u64,
    pub username: String,
}

/// Body of the liveness route.
pub fn root() -> (r: &'static str)
    ensures
        r@ == "Hello, world!"@,
{
    "Hello, world!"
}

/// The user that the user route answers with: the requested name under the
/// fixed id.
pub fn create_user(payload: CreateUser) -> (r: User)
    ensures
        r.id == USER_ID,
        r.username@ == payload.username@,
{
    User { id: USER_ID, username: payload.username }
}

} // verus!
