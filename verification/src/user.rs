//! A user record and its builder.

use vstd::prelude::*;

verus! {

/// One account: whether it is active, who owns it, and how often it was
/// signed into.
#[derive(Debug)]
pub struct User {
    /// Whether the account is active.
    pub active: bool,
    /// The owner's chosen name.
    pub username: String,
    /// The owner's mail address.
    pub email: String,
    /// How many times the account was signed into.
    pub sign_in_count: u64,
}

/// Builds a fresh user: active, with the given address and name, signed in
/// once.
pub fn build_user(email: String, username: String) -> (u: User)
    ensures
        u.active,
        u.username == username,
        u.email == email,
        u.sign_in_count == 1,
{
    User { active: true, username, email, sign_in_count: 1 }
}

} // verus!
