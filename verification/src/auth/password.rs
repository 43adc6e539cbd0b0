//! Password complexity rules, hashing with scrypt and verification.
use crate::error::AppError;
use crate::text::{
    any_char, char_is_alphanumeric, char_is_lowercase, char_is_uppercase, is_ascii_digit,
    str_byte_len, byte_len, unicode_alphanumeric, unicode_lowercase, unicode_uppercase,
};
use argon2::password_hash::{PasswordHash, PasswordVerifier};
use scrypt::password_hash::{rand_core::OsRng, PasswordHasher, SaltString};
use vstd::prelude::*;
use zeroize::Zeroize;

verus! {

/// Minimum password length, in bytes.
pub const MIN_PASSWORD_LENGTH: usize = 10;

/// Password complexity requirements.
#[derive(Debug, Clone, Copy)]
pub struct PasswordRequirements {
    pub min_length: usize,
    pub require_uppercase: bool,
    pub require_lowercase: bool,
    pub require_digit: bool,
    pub require_special: bool,
}

impl Default for PasswordRequirements {
    /// At least 10 bytes, with an uppercase and a lowercase letter, a digit
    /// and a special (non-alphanumeric) character.
    fn default() -> (r: Self)
        ensures
            r.min_length == MIN_PASSWORD_LENGTH,
            r.require_uppercase && r.require_lowercase && r.require_digit && r.require_special,
    {
        PasswordRequirements {
            min_length: MIN_PASSWORD_LENGTH,
            require_uppercase: true,
            require_lowercase: true,
            require_digit: true,
            require_special: true,
        }
    }
}

/// `password` meets `req`: long enough, and holding each required class of character.
pub open spec fn meets_requirements(password: Seq<char>, req: PasswordRequirements) -> bool {
    &&& byte_len(password) >= req.min_length
    &&& req.require_uppercase ==> any_char(password, |c: char| unicode_uppercase(c))
    &&& req.require_lowercase ==> any_char(password, |c: char| unicode_lowercase(c))
    &&& req.require_digit ==> any_char(password, |c: char| is_ascii_digit(c))
    &&& req.require_special ==> any_char(password, |c: char| !unicode_alphanumeric(c))
}

/// Checks a password against complexity requirements.
pub fn validate_password_strength(password: &str, requirements: &PasswordRequirements) -> (ok: bool)
    ensures
        ok == meets_requirements(password@, *requirements),
{
    if str_byte_len(password) < requirements.min_length {
        return false;
    }
    let mut upper = false;
    let mut lower = false;
    let mut digit = false;
    let mut special = false;
    for c in it: password.chars()
        invariant
            it.seq() == password@,
            upper == (exists|i: int| 0 <= i < it.index() && unicode_uppercase(#[trigger] password@[i])),
            lower == (exists|i: int| 0 <= i < it.index() && unicode_lowercase(#[trigger] password@[i])),
            digit == (exists|i: int| 0 <= i < it.index() && is_ascii_digit(#[trigger] password@[i])),
            special == (exists|i: int| 0 <= i < it.index() && !unicode_alphanumeric(#[trigger] password@[i])),
    {
        let u = char_is_uppercase(c);
        let l = char_is_lowercase(c);
        let a = char_is_alphanumeric(c);
        upper = upper || u;
        lower = lower || l;
        digit = digit || ('0' <= c && c <= '9');
        special = special || !a;
    }
    if requirements.require_uppercase && !upper {
        return false;
    }
    if requirements.require_lowercase && !lower {
        return false;
    }
    if requirements.require_digit && !digit {
        return false;
    }
    if requirements.require_special && !special {
        return false;
    }
    true
}

/// Whether `argon2`'s verifier accepts `password` for the PHC hash string
/// `hash` (`PasswordHash::new` then `Argon2::default().verify_password`).
pub uninterp spec fn argon2_accepts(hash: Seq<char>, password: Seq<char>) -> bool;

/// Whether `scrypt`'s verifier accepts `password` for the PHC hash string
/// `hash` (`PasswordHash::new` then `Scrypt.verify_password`).
pub uninterp spec fn scrypt_accepts(hash: Seq<char>, password: Seq<char>) -> bool;

/// Whether `PasswordHash::new` parses `hash` as a PHC string.
pub uninterp spec fn phc_parses(hash: Seq<char>) -> bool;

/// Whether the PHC hash string `hash` accepts `password` under either
/// verifier the library knows: Argon2 or scrypt.
pub open spec fn phc_accepts(hash: Seq<char>, password: Seq<char>) -> bool {
    argon2_accepts(hash, password) || scrypt_accepts(hash, password)
}

/// Hashes `plain` with scrypt and a fresh random salt
/// (`Scrypt.hash_password` with `SaltString::generate(&mut OsRng)`), written as
/// a PHC string. The salt, hence the hash, is left open; the contract states
/// that hashing succeeds (with the default parameters and a generated salt
/// the scrypt computation has no failing case), that the text names the
/// scrypt algorithm, and that scrypt's verifier accepts `plain` for it (the
/// verifier recomputes the hash from the salt and parameters that the string
/// carries).
#[verifier::external_body]
fn scrypt_hash(plain: &str) -> (r: Result<String, String>)
    ensures
        r is Ok,
        r matches Ok(h) ==> h@.len() >= 8 && h@.take(8) == "$scrypt$"@ && scrypt_accepts(h@, plain@),
{
    let salt = SaltString::generate(&mut OsRng);
    match scrypt::Scrypt.hash_password(plain.as_bytes(), &salt) {
        Ok(h) => Ok(h.to_string()),
        Err(e) => Err(e.to_string()),
    }
}

/// Parses `hash` as a PHC string and checks `password` against it with
/// `PasswordHash::verify_password`, offered `Argon2::default()` and `Scrypt`:
/// the password is accepted when either verifier accepts it, each for the
/// algorithm that the string names. A string that `PasswordHash::new` does
/// not parse is refused; among them, every string that does not begin with
/// `$` (the parser's first field must be empty).
#[verifier::external_body]
fn phc_verify(hash: &str, password: &str) -> (ok: bool)
    ensures
        ok == (argon2_accepts(hash@, password@) || scrypt_accepts(hash@, password@)),
        !phc_parses(hash@) ==> !ok,
        ok ==> hash@.len() > 0 && hash@[0] == '$',
{
    match PasswordHash::new(hash) {
        Ok(parsed) => parsed.verify_password(&[&argon2::Argon2::default(), &scrypt::Scrypt], password).is_ok(),
        Err(_) => false,
    }
}

/// Parses `hash` as a PHC string and checks `password` against it with
/// scrypt; an unparsable hash is refused (in particular one that does not
/// begin with `$`). The answer is named by `scrypt_accepts`, not restated.
#[verifier::external_body]
pub(crate) fn scrypt_verify(hash: &str, password: &str) -> (ok: bool)
    ensures
        ok == scrypt_accepts(hash@, password@),
        !phc_parses(hash@) ==> !ok,
        ok ==> hash@.len() > 0 && hash@[0] == '$',
{
    match PasswordHash::new(hash) {
        Ok(parsed) => scrypt::Scrypt.verify_password(password.as_bytes(), &parsed).is_ok(),
        Err(_) => false,
    }
}

/// Hashes a password with scrypt and a random salt; hashing succeeds.
pub fn hash_password(plain: &str) -> (r: Result<String, AppError>)
    ensures
        r is Ok,
        r matches Ok(h) ==> h@.len() >= 8 && h@.take(8) == "$scrypt$"@ && scrypt_accepts(h@, plain@),
{
    match scrypt_hash(plain) {
        Ok(h) => Ok(h),
        Err(m) => Err(AppError::Internal(m)),
    }
}

/// Verifies a password against a PHC hash string, such as one made by
/// `hash_password` (scrypt) or an Argon2 hash; a string that is not a PHC
/// hash (in particular one that does not begin with `$`) is refused.
pub fn verify_password(hash: &str, password: &str) -> (ok: bool)
    ensures
        ok == phc_accepts(hash@, password@),
        !phc_parses(hash@) ==> !ok,
        ok ==> hash@.len() > 0 && hash@[0] == '$',
{
    phc_verify(hash, password)
}

/// Clears a string's contents in place (`zeroize::Zeroize` for `String`:
/// every byte is overwritten with zero, then the string is emptied).
#[verifier::external_body]
fn zeroize_string(s: &mut String)
    ensures
        final(s)@ == Seq::<char>::empty(),
{
    s.zeroize();
}

/// Hashes a password, which succeeds, then wipes the plain text.
pub fn hash_password_secure(plain: &mut String) -> (r: Result<String, AppError>)
    ensures
        r is Ok,
        r matches Ok(h) ==> h@.len() >= 8 && h@.take(8) == "$scrypt$"@ && scrypt_accepts(h@, old(plain)@),
        final(plain)@ == Seq::<char>::empty(),
{
    let hash = hash_password(plain.as_str());
    match hash {
        Ok(h) => {
            zeroize_string(plain);
            Ok(h)
        },
        Err(e) => Err(e),
    }
}

} // verus!
