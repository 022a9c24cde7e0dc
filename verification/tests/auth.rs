//! The authentication rules: username validation, challenge issuance,
//! the challenge response hash, and response comparison.

use svf_server::service::authentication_service::{
    new_password_challenge, password_response_matches, verify_username,
    AuthenticationServiceError,
};
use svf_server::service::db_service::{hash_password_with_challenge, to_hex_chars, DBServiceError};
use svf_server::service::authentication_service::AuthenticationServiceError as AuthError;

#[test]
fn valid_usernames_pass() {
    assert!(verify_username("abc").is_ok());
    assert!(verify_username("Farm_Hand-Two").is_ok());
    assert!(verify_username("twentycharacterslong").is_ok());
}

#[test]
fn username_with_forbidden_characters_is_rejected() {
    assert_eq!(
        verify_username("abc1"),
        Err(AuthenticationServiceError::InvalidUsernameRegex)
    );
    assert_eq!(
        verify_username("has space"),
        Err(AuthenticationServiceError::InvalidUsernameRegex)
    );
    assert_eq!(
        verify_username(""),
        Err(AuthenticationServiceError::InvalidUsernameRegex)
    );
}

#[test]
fn username_length_bounds() {
    assert_eq!(
        verify_username("ab"),
        Err(AuthenticationServiceError::InvalidUsernameLength)
    );
    assert_eq!(
        verify_username("twentyonecharacterslo"),
        Err(AuthenticationServiceError::InvalidUsernameLength)
    );
}

#[test]
fn character_rule_is_checked_before_length() {
    // too short and with a forbidden character: the character rule wins
    assert_eq!(
        verify_username("a1"),
        Err(AuthenticationServiceError::InvalidUsernameRegex)
    );
}

#[test]
fn challenge_is_64_alphanumeric_characters() {
    let challenge = new_password_challenge();
    assert_eq!(challenge.len(), 64);
    assert!(challenge.iter().all(|c| c.is_ascii_alphanumeric()));
}

#[test]
fn challenge_hash_matches_reference_vectors() {
    // SHA-256 of the empty input
    let got = hash_password_with_challenge(&String::new(), &String::new());
    let expected: Vec<char> = "e3b0c44298fc1c149afbf4c8996fb92427ae41e4649b934ca495991b7852b855"
        .chars()
        .collect();
    assert_eq!(got, expected);

    // SHA-256 of "abc", split across the two inputs
    let got = hash_password_with_challenge(&String::from("a"), &String::from("bc"));
    let expected: Vec<char> = "ba7816bf8f01cfea414140de5dae2223b00361a396177a9cb410ff61f20015ad"
        .chars()
        .collect();
    assert_eq!(got, expected);
}

#[test]
fn hex_rendering_is_lowercase_two_digits_per_byte() {
    let chars = to_hex_chars(&vec![0x00, 0x0F, 0xA5, 0xFF]);
    let expected: Vec<char> = "000fa5ff".chars().collect();
    assert_eq!(chars, expected);
}

#[test]
fn response_comparison() {
    let expected: Vec<char> = "deadbeef".chars().collect();
    assert!(password_response_matches(&expected, "deadbeef"));
    assert!(!password_response_matches(&expected, "deadbeee"));
    assert!(!password_response_matches(&expected, "deadbee"));
    assert!(!password_response_matches(&expected, ""));
}

#[test]
fn db_errors_map_onto_auth_errors() {
    assert_eq!(
        AuthError::from_db(DBServiceError::UnregisterdAccount),
        AuthError::UnregisteredAccount
    );
    assert_eq!(AuthError::from_db(DBServiceError::UserAlreadyExists), AuthError::UsernameTaken);
    assert_eq!(AuthError::from_db(DBServiceError::GoogleTaken), AuthError::GoogleTaken);
    assert_eq!(
        AuthError::from_db(DBServiceError::AuthenticationMismatch),
        AuthError::AuthenticationMismatch
    );
}
