//! Password hashes (Argon2id with a random salt) and generated OPDS passwords.
use vstd::prelude::*;
use vstd::utf8::encode_utf8;
use argon2::{Argon2, PasswordHasher, PasswordVerifier};
use rand::RngExt;

verus! {

/// Whether Argon2 accepts `password` for the stored PHC hash string: the
/// string parses, and hashing the password with its parameters and salt
/// gives its hash.
pub uninterp spec fn argon2_accepts(password: Seq<u8>, stored: Seq<char>) -> bool;

/// `Argon2::hash_password` with the default parameters and a salt from the
/// system's random source, as a PHC string; `None` when hashing fails. The
/// salt is random, so nothing fixes the string itself; what the crate
/// guarantees is that verifying the same password against it succeeds.
#[verifier::external_body]
fn argon2_hash(password: &[u8]) -> (r: Option<String>)
    ensures
        r matches Some(h) ==> argon2_accepts(password@, h@),
{
    Argon2::default().hash_password(password).ok().map(|h| h.to_string())
}

/// `Argon2::verify_password` against a PHC hash string.
#[verifier::external_body]
fn argon2_verify(password: &[u8], stored: &str) -> (r: bool)
    ensures
        r == argon2_accepts(password@, stored@),
{
    Argon2::default().verify_password(password, stored).is_ok()
}

/// Hash a plaintext password using Argon2id with a random salt; `None` when
/// the hasher fails. The hash verifies the password.
pub fn hash(password: &str) -> (r: Option<String>)
    ensures
        r matches Some(h) ==> argon2_accepts(encode_utf8(password@), h@),
{
    argon2_hash(password.as_bytes())
}

/// Verify a plaintext password against a stored hash; a hash that does not
/// parse verifies nothing.
pub fn verify(password: &str, stored_hash: &str) -> (r: bool)
    ensures
        r == argon2_accepts(encode_utf8(password@), stored_hash@),
{
    argon2_verify(password.as_bytes(), stored_hash)
}

/// The length of generated passwords.
pub const OPDS_PASSWORD_LEN: usize = 16;

pub open spec fn is_password_char(c: char) -> bool {
    ('A' <= c && c <= 'Z') || ('a' <= c && c <= 'z') || ('0' <= c && c <= '9')
}

/// `rand::rng().random_range(0..n)`: a random index below `n`.
#[verifier::external_body]
fn random_index(n: usize) -> (r: usize)
    requires
        n > 0,
    ensures
        r < n,
{
    rand::rng().random_range(0..n)
}

/// The character at index `i` of `A`–`Z`, `a`–`z`, `0`–`9`.
fn charset_char(i: usize) -> (c: char)
    requires
        i < 62,
    ensures
        is_password_char(c),
{
    if i < 26 {
        ((('A' as u8) + (i as u8)) as char)
    } else if i < 52 {
        ((('a' as u8) + ((i - 26) as u8)) as char)
    } else {
        ((('0' as u8) + ((i - 52) as u8)) as char)
    }
}

/// A random password of 16 ASCII letters and digits, for OPDS Basic Auth.
pub fn generate_opds_password() -> (r: String)
    ensures
        r@.len() == OPDS_PASSWORD_LEN,
        forall|i: int| 0 <= i < r@.len() ==> is_password_char(#[trigger] r@[i]),
{
    let mut chars: Vec<char> = Vec::new();
    let mut k: usize = 0;
    while k < OPDS_PASSWORD_LEN
        invariant
            k <= OPDS_PASSWORD_LEN,
            chars@.len() == k,
            forall|i: int| 0 <= i < chars@.len() ==> is_password_char(#[trigger] chars@[i]),
        decreases OPDS_PASSWORD_LEN - k,
    {
        let idx = random_index(62);
        chars.push(charset_char(idx));
        k += 1;
    }
    crate::text::from_chars(chars.as_slice())
}

} // verus!
