//! The authentication flow's request/response shapes and its pure rules:
//! what counts as a valid username, how a password challenge is drawn, and
//! how a challenge response is checked.  The registry round trips and the
//! identity-provider call that the flow interleaves with stay outside the
//! library.

use vstd::prelude::*;
use crate::service::db_service::DBServiceError;
use crate::utils::{is_alnum_char, random_alphanumeric_chars};

verus! {

#[derive(Debug, Clone, PartialEq, Eq)]
pub enum AuthenticationServiceRequest {
    GoogleLogin { google_access_token: String },
    DefaultLogin { username: String, password_hash: String },
    DefaultSignup { username: String, password_hash: String },
    GoogleSignup { google_access_token: String, username: String },
    PasswordChallenge { username: String },
}

#[derive(Debug, Clone, Copy, PartialEq, Eq, Structural)]
pub enum AuthenticationServiceError {
    InvalidUsernameRegex,
    InvalidUsernameLength,
    InvalidPassword,
    InvalidGoogleToken,
    InvalidAccessToken,
    AuthenticationMismatch,
    UnregisteredAccount,
    UsernameTaken,
    GoogleTaken,
    WrongPassword,
}

impl AuthenticationServiceError {
    /// Maps a registry failure onto the flow's own error taxonomy.
    pub fn from_db(value: DBServiceError) -> (r: Self)
        ensures
            r == match value {
                DBServiceError::UnregisterdAccount => Self::UnregisteredAccount,
                DBServiceError::UserAlreadyExists => Self::UsernameTaken,
                DBServiceError::GoogleTaken => Self::GoogleTaken,
                DBServiceError::AuthenticationMismatch => Self::AuthenticationMismatch,
            },
    {
        match value {
            DBServiceError::UnregisterdAccount => Self::UnregisteredAccount,
            DBServiceError::UserAlreadyExists => Self::UsernameTaken,
            DBServiceError::GoogleTaken => Self::GoogleTaken,
            DBServiceError::AuthenticationMismatch => Self::AuthenticationMismatch,
        }
    }
}

#[derive(Debug, Clone, PartialEq, Eq)]
pub enum AuthenticationServiceResponse {
    AccessToken(Vec<char>),
    PasswordChallenge(Vec<char>),
    Empty,
}

/// A character a username may contain: an English letter, `_` or `-`.
pub open spec fn is_username_char(c: char) -> bool {
    (65 <= c as int <= 90) || (97 <= c as int <= 122) || c == '_' || c == '-'
}

/// The character rule on usernames: non-empty, made of permitted
/// characters only.
pub open spec fn username_chars_ok(s: Seq<char>) -> bool {
    s.len() > 0 && forall|i: int| 0 <= i < s.len() ==> is_username_char(#[trigger] s[i])
}

/// Checks a username: first the character rule, then the 3..=20 length
/// bound; each violation maps to its own error.
pub fn verify_username(username: &str) -> (r: Result<(), AuthenticationServiceError>)
    ensures
        !username_chars_ok(username@) ==> r == Err::<
            (),
            AuthenticationServiceError,
        >(AuthenticationServiceError::InvalidUsernameRegex),
        username_chars_ok(username@) && !(3 <= username@.len() <= 20) ==> r == Err::<
            (),
            AuthenticationServiceError,
        >(AuthenticationServiceError::InvalidUsernameLength),
        username_chars_ok(username@) && 3 <= username@.len() <= 20 ==> r is Ok,
{
    let len = username.unicode_len();
    if len == 0 {
        return Err(AuthenticationServiceError::InvalidUsernameRegex);
    }
    let mut i: usize = 0;
    while i < len
        invariant
            0 <= i <= len,
            len == username@.len(),
            forall|j: int| 0 <= j < i ==> is_username_char(#[trigger] username@[j]),
        decreases len - i,
    {
        let c = username.get_char(i);
        let u = c as u32;
        if !((65 <= u && u <= 90) || (97 <= u && u <= 122) || c == '_' || c == '-') {
            return Err(AuthenticationServiceError::InvalidUsernameRegex);
        }
        i = i + 1;
    }
    if len < 3 || len > 20 {
        return Err(AuthenticationServiceError::InvalidUsernameLength);
    }
    Ok(())
}

/// Draws a fresh password challenge: 64 random ASCII letters and digits.
pub fn new_password_challenge() -> (r: Vec<char>)
    ensures
        r@.len() == 64,
        forall|i: int| 0 <= i < 64 ==> is_alnum_char(#[trigger] r@[i]),
{
    random_alphanumeric_chars(64)
}

/// Whether the response a client presented matches the expected challenge
/// hash, character for character.
pub fn password_response_matches(expected: &Vec<char>, provided: &str) -> (r: bool)
    ensures
        r == (expected@ == provided@),
{
    let len = provided.unicode_len();
    if expected.len() != len {
        proof {
            assert(expected@.len() != provided@.len());
        }
        return false;
    }
    let mut i: usize = 0;
    while i < len
        invariant
            0 <= i <= len,
            len == provided@.len(),
            expected@.len() == len,
            forall|j: int| 0 <= j < i ==> expected@[j] == provided@[j],
        decreases len - i,
    {
        if expected[i] != provided.get_char(i) {
            return false;
        }
        i = i + 1;
    }
    proof {
        assert(expected@ =~= provided@);
    }
    true
}

} // verus!
