//! Request shapes of the login endpoints.

use vstd::prelude::*;

verus! {

/// Username login: the username and the challenge response derived from
/// the stored password hash and the issued challenge.
pub struct UsernameLogin {
    pub username: String,
    pub password_challenge_hash: String,
}

/// Login through the external identity provider.
pub struct GoogleLogin {
    pub google_access_token: String,
}

/// Request for a fresh password challenge.
pub struct PasswordChallenge {
    pub username: String,
}

} // verus!
