//! Password hashing with Argon2.

use vstd::prelude::*;
use argon2::password_hash::rand_core::OsRng;
use argon2::password_hash::{PasswordHash, PasswordHasher, PasswordVerifier, SaltString};
use argon2::Argon2;

verus! {

/// The PHC string that Argon2 with its default parameters derives from a
/// password and a salt in its text form, or `None` where it refuses them.
pub uninterp spec fn argon2_hash(password: Seq<char>, salt: Seq<char>) -> Option<Seq<char>>;

/// Whether Argon2 accepts `password` for the PHC string `hash`.
pub uninterp spec fn argon2_verify(password: Seq<char>, hash: Seq<char>) -> bool;

/// Whether `c` is a letter, a digit, `+` or `/`: a character of Base64.
pub open spec fn is_salt_char(c: char) -> bool {
    ||| 0x41 <= c as u32 <= 0x5a
    ||| 0x61 <= c as u32 <= 0x7a
    ||| 0x30 <= c as u32 <= 0x39
    ||| c == '+'
    ||| c == '/'
}

/// Whether `salt` is the Base64 text, without padding, of sixteen bytes:
/// twenty-two characters of Base64, of which the last carries the two bits
/// that are left over and so is one of `A`, `Q`, `g` and `w`.
pub open spec fn salt_shape(salt: Seq<char>) -> bool {
    &&& salt.len() == 22
    &&& forall|i: int| 0 <= i < salt.len() ==> is_salt_char(#[trigger] salt[i])
    &&& (salt[21] == 'A' || salt[21] == 'Q' || salt[21] == 'g' || salt[21] == 'w')
}

/// Whether Argon2 takes a password of this length: its UTF-8 encoding has at
/// most 0xFFFFFFFF bytes.
pub open spec fn password_fits(password: Seq<char>) -> bool {
    vstd::utf8::encode_utf8(password).len() <= 0xFFFF_FFFF
}

/// A password takes at most four bytes for each of its characters, so one of
/// up to 0x3FFFFFFF characters is within Argon2's limit.
pub proof fn short_password_fits(password: Seq<char>)
    ensures
        vstd::utf8::encode_utf8(password).len() <= 4 * password.len(),
        password.len() <= 0x3FFF_FFFF ==> password_fits(password),
    decreases password.len(),
{
    if password.len() > 0 {
        short_password_fits(password.drop_first());
    }
}

/// A fresh random salt in its text form, from `SaltString::generate` on the
/// operating system's generator: sixteen random bytes in Base64 without
/// padding. Of its value no more is promised than that shape.
#[verifier::external_body]
pub(crate) fn fresh_salt() -> (salt: String)
    ensures
        salt_shape(salt@),
{
    SaltString::generate(&mut OsRng).as_str().to_owned()
}

/// `PasswordHasher::hash_password` of `Argon2::default()`, on the salt parsed
/// by `SaltString::from_b64`. The result is the PHC string, a function of the
/// password and the salt alone; a hash that comes back is one that
/// `verify_password` accepts for the same password. Argon2 refuses only a
/// salt that does not decode or is shorter than eight bytes, and a password
/// beyond its length limit: with a salt of sixteen bytes and a password
/// within the limit a hash comes back.
#[verifier::external_body]
pub(crate) fn hash_with_salt(password: &str, salt: &str) -> (hash: Option<String>)
    ensures
        match hash {
            Some(h) => argon2_hash(password@, salt@) == Some(h@) && argon2_verify(password@, h@),
            None => argon2_hash(password@, salt@) is None,
        },
        salt_shape(salt@) && password_fits(password@) ==> hash is Some,
{
    match SaltString::from_b64(salt) {
        Ok(salt) => Argon2::default().hash_password(password.as_bytes(), &salt).ok().map(|h| h.to_string()),
        Err(_) => None,
    }
}

/// `PasswordVerifier::verify_password` of `Argon2::default()`, on the hash
/// parsed by `PasswordHash::new`: whether the password matches the PHC string.
/// A string that does not parse matches no password.
#[verifier::external_body]
pub(crate) fn verify_hash(password: &str, hash: &str) -> (ok: bool)
    ensures
        ok == argon2_verify(password@, hash@),
{
    match PasswordHash::new(hash) {
        Ok(parsed) => Argon2::default().verify_password(password.as_bytes(), &parsed).is_ok(),
        Err(_) => false,
    }
}

/// Hashes `password` under a fresh salt.
///
/// The answer is what Argon2 derives from the password and the salt that was
/// drawn: its PHC string, which `password` verifies against. A password
/// within Argon2's length limit is always hashed.
pub fn hash_password(password: &str) -> (hash: Option<String>)
    ensures
        exists|salt: Seq<char>|
            salt_shape(salt) && match hash {
                Some(h) => #[trigger] argon2_hash(password@, salt) == Some(h@),
                None => argon2_hash(password@, salt) is None,
            },
        hash matches Some(h) ==> argon2_verify(password@, h@),
        password_fits(password@) ==> hash is Some,
{
    let salt = fresh_salt();
    hash_with_salt(password, salt.as_str())
}

} // verus!
