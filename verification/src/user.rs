//! A user record with its builder and update helpers.

use vstd::prelude::*;

verus! {

/// An account record.
#[derive(Clone, Debug)]
pub struct User {
    pub active: bool,
    pub username: String,
    pub email: String,
    pub sign_in_count: u64,
}

/// Build an active first-time user from its email and username.
pub fn build_user(email: String, username: String) -> (r: User)
    ensures
        r.active,
        r.username == username,
        r.email == email,
        r.sign_in_count == 1,
{
    User { active: true, username, email, sign_in_count: 1 }
}

/// A copy of `base` with a new email and all other fields kept.
pub fn update_email(base: &User, new_email: &str) -> (r: User)
    ensures
        r.active == base.active,
        r.username == base.username,
        r.email@ == new_email@,
        r.sign_in_count == base.sign_in_count,
{
    User {
        email: String::from_str(new_email),
        active: base.active,
        username: base.username.clone(),
        sign_in_count: base.sign_in_count,
    }
}

} // verus!
