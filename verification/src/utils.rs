//! Shared helpers: the binary buffer codec and the profile record returned
//! by the external identity provider.

pub mod buffer_reader;
pub mod buffer_writer;

use vstd::prelude::*;

verus! {

/// An ASCII letter or digit.
pub open spec fn is_alnum_char(c: char) -> bool {
    (48 <= c as int <= 57) || (65 <= c as int <= 90) || (97 <= c as int <= 122)
}

/// Relies on rand's thread-local generator sampling the Alphanumeric
/// distribution: every drawn byte is an ASCII letter or digit.  Which
/// bytes come out is chance; nothing more is assumed of them.
#[verifier::external_body]
fn random_alphanumeric_bytes(n: usize) -> (r: Vec<u8>)
    ensures
        r@.len() == n,
        forall|i: int| 0 <= i < n ==> is_alnum_char(#[trigger] r@[i] as char),
{
    let mut rng = rand::rng();
    let mut out = Vec::with_capacity(n);
    for _ in 0..n {
        out.push(rand::RngExt::sample(&mut rng, rand::distr::Alphanumeric));
    }
    out
}

/// A fresh sequence of `n` random ASCII letters and digits.
pub fn random_alphanumeric_chars(n: usize) -> (r: Vec<char>)
    ensures
        r@.len() == n,
        forall|i: int| 0 <= i < n ==> is_alnum_char(#[trigger] r@[i]),
{
    let bytes = random_alphanumeric_bytes(n);
    let mut chars: Vec<char> = Vec::new();
    let mut i: usize = 0;
    while i < bytes.len()
        invariant
            0 <= i <= bytes@.len(),
            bytes@.len() == n,
            chars@.len() == i,
            forall|j: int| 0 <= j < bytes@.len() ==> is_alnum_char(#[trigger] bytes@[j] as char),
            forall|j: int| 0 <= j < i ==> is_alnum_char(#[trigger] chars@[j]),
        decreases bytes@.len() - i,
    {
        chars.push(bytes[i] as char);
        i = i + 1;
    }
    chars
}

/// Profile record handed back by the external identity provider after a
/// token lookup.  Only carried through; no field is interpreted here.
pub struct GoogleUserInfo {
    pub id: String,
    pub email: String,
    pub verified_email: bool,
    pub name: String,
    pub given_name: String,
    pub family_name: String,
    pub picture: String,
}

} // verus!
