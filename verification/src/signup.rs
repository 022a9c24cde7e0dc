//! Request shapes of the signup endpoints.

use vstd::prelude::*;

verus! {

/// Signup with a username and a client-side password hash.
pub struct UsernameSignup {
    pub username: String,
    pub password_hash: String,
}

/// Signup through the external identity provider.
pub struct GoogleSignup {
    pub username: String,
    pub google_access_token: String,
}

} // verus!
