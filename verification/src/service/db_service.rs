//! Interface of the registry/credential store, consumed over a mailbox:
//! the request and response shapes, and the one piece of its processing
//! that is pure computation — deriving the challenge response hash that a
//! login attempt is checked against.

use vstd::prelude::*;
use vstd::utf8::encode_utf8;

verus! {

#[derive(Debug, Clone, PartialEq, Eq)]
pub enum DBServiceRequest {
    CreateUserDefault { username: String, password_hash: String },
    CreatePasswordChallenge { username: String, challenge: Vec<char> },
    ConsumePasswordWithChallenge { username: String },
    CreateUserGoogle { username: String, google_id: String },
    CreateAccessTokenUsername { username: String },
    CreateAccessTokenGoogle { google_id: String },
    GetTemperature { id: Vec<char> },
    CreateNewDevice { region: String },
}

#[derive(Debug, Clone, Copy, PartialEq, Eq, Structural)]
pub enum DBServiceError {
    UnregisterdAccount,
    UserAlreadyExists,
    GoogleTaken,
    AuthenticationMismatch,
}

#[derive(Debug, Clone, PartialEq, Eq)]
pub enum DBServiceResponse {
    Empty,
    AccessToken(Vec<char>),
    PasswordHashWithChallenge(Vec<char>),
    Temperature(i32),
    DeviceId(Vec<char>),
}

/// The SHA-256 digest of a byte sequence, named but not spelled out; the
/// trusted wrapper below ties it to the implementation.
pub uninterp spec fn sha256_of(bytes: Seq<u8>) -> Seq<u8>;

/// Relies on sha2::Sha256: the digest is 32 bytes and a function of the
/// input bytes alone.
#[verifier::external_body]
fn sha256_digest(data: &[u8]) -> (r: Vec<u8>)
    ensures
        r@ == sha256_of(data@),
        r@.len() == 32,
{
    let digest = <sha2::Sha256 as sha2::Digest>::digest(data);
    digest.to_vec()
}

/// Lowercase hex digit for a value below 16.
pub open spec fn hex_digit(n: u8) -> char
    recommends
        n < 16,
{
    if n < 10 {
        (48 + n) as char
    } else {
        (87 + n) as char
    }
}

/// Lowercase hex expansion of a byte sequence, two digits per byte, high
/// nibble first.
pub open spec fn hex_chars_of(bytes: Seq<u8>) -> Seq<char> {
    Seq::new(
        2 * bytes.len(),
        |i: int|
            if i % 2 == 0 {
                hex_digit(bytes[i / 2] / 16)
            } else {
                hex_digit(bytes[i / 2] % 16)
            },
    )
}

/// Renders bytes as lowercase hex characters.
pub fn to_hex_chars(bytes: &Vec<u8>) -> (r: Vec<char>)
    requires
        bytes@.len() * 2 <= usize::MAX,
    ensures
        r@ == hex_chars_of(bytes@),
{
    let mut out: Vec<char> = Vec::new();
    let mut i: usize = 0;
    while i < bytes.len()
        invariant
            0 <= i <= bytes@.len(),
            bytes@.len() * 2 <= usize::MAX,
            out@.len() == 2 * i,
            forall|j: int| 0 <= j < 2 * i ==> out@[j] == hex_chars_of(bytes@)[j],
        decreases bytes@.len() - i,
    {
        let b = bytes[i];
        let hi = b / 16;
        let lo = b % 16;
        out.push(if hi < 10 { (48 + hi) as char } else { (87 + hi) as char });
        out.push(if lo < 10 { (48 + lo) as char } else { (87 + lo) as char });
        i = i + 1;
    }
    proof {
        assert(out@ =~= hex_chars_of(bytes@));
    }
    out
}

/// The challenge response a correct login must present: the lowercase hex
/// form of SHA-256 over the stored password hash followed by the issued
/// challenge, 64 characters in all.
pub fn hash_password_with_challenge(password_hash: &String, password_challenge: &String) -> (r: Vec<
    char,
>)
    ensures
        r@ == hex_chars_of(
            sha256_of(encode_utf8(password_hash@) + encode_utf8(password_challenge@)),
        ),
        r@.len() == 64,
{
    let mut data: Vec<u8> = Vec::new();
    data.extend_from_slice(password_hash.as_str().as_bytes());
    data.extend_from_slice(password_challenge.as_str().as_bytes());
    proof {
        assert(data@ =~= encode_utf8(password_hash@) + encode_utf8(password_challenge@));
    }
    let digest = sha256_digest(data.as_slice());
    to_hex_chars(&digest)
}

} // verus!
