//! Password hashing and the log-in request.

use vstd::prelude::*;

use argon2::{PasswordHasher, PasswordVerifier};

use vstd::utf8::encode_utf8;

use crate::text::{is_ascii_alnum_char, owned, trim, trim_seq};

verus! {

#[verifier::external_type_specification]
#[verifier::external_body]
pub struct ExPasswordHashError(argon2::password_hash::Error);

/// Whether `phc` is a PHC-format password hash that `Argon2::default()`
/// verifies `password` against (what `PasswordVerifier::verify_password`
/// answers; `false` when `phc` does not parse as a password hash).
pub uninterp spec fn argon2_accepts(password: Seq<char>, phc: Seq<char>) -> bool;

/// A character of the B64 alphabet that PHC salts are written in:
/// `[A-Za-z0-9+/]`.
pub open spec fn is_b64_char(c: char) -> bool {
    is_ascii_alnum_char(c) || c == '+' || c == '/'
}

/// `s` is the unpadded B64 text of 16 bytes (the salt length PHC
/// recommends): 22 characters of the alphabet, the last of which carries
/// two bits of the last byte and four zero bits, so it is one of `AQgw`.
pub open spec fn is_salt_text(s: Seq<char>) -> bool {
    &&& s.len() == 22
    &&& forall|i: int| 0 <= i < 22 ==> is_b64_char(#[trigger] s[i])
    &&& (s[21] == 'A' || s[21] == 'Q' || s[21] == 'g' || s[21] == 'w')
}

/// Longest password, in UTF-8 bytes, that Argon2 accepts (`MAX_PWD_LEN`).
pub const MAX_PASSWORD_BYTES: u64 = 0xFFFF_FFFF;

/// `SaltString::generate` with the operating system's random source, as its
/// text: `encode_b64` of 16 random bytes. Which bytes is not stated.
#[verifier::external_body]
fn generate_salt() -> (r: String)
    ensures
        is_salt_text(r@),
{
    argon2::password_hash::SaltString::generate(&mut argon2::password_hash::rand_core::OsRng)
        .as_str()
        .to_owned()
}

/// `PasswordHasher::hash_password` of `Argon2::default()` on the UTF-8 bytes of
/// `password` with the salt whose B64 text is `salt` (`Salt::from_b64`),
/// rendered as a PHC string. Verification recomputes the hash from the
/// parameters and salt stored in that string, so a hash it returns verifies
/// `password`. With the B64 text of 16 bytes as the salt (4 to 64
/// characters, decoding to at least 8 bytes), the only refusal left is a
/// password longer than `MAX_PWD_LEN` bytes. The hash text itself is not
/// stated.
#[verifier::external_body]
fn argon2_hash(password: &str, salt: &str) -> (r: Result<String, argon2::password_hash::Error>)
    ensures
        r matches Ok(h) ==> argon2_accepts(password@, h@),
        is_salt_text(salt@) ==> (r is Ok <==> encode_utf8(password@).len() <= MAX_PASSWORD_BYTES),
{
    let salt = argon2::password_hash::Salt::from_b64(salt)?;
    argon2::Argon2::default().hash_password(password.as_bytes(), salt).map(|h| h.to_string())
}

/// `PasswordHash::new` on `stored_hash`, then `PasswordVerifier::verify_password`
/// of `Argon2::default()` on the UTF-8 bytes of `password`; `false` when the
/// stored hash does not parse.
#[verifier::external_body]
fn argon2_verify(password: &str, stored_hash: &str) -> (ok: bool)
    ensures
        ok == argon2_accepts(password@, stored_hash@),
{
    match argon2::PasswordHash::new(stored_hash) {
        Ok(parsed) => argon2::Argon2::default().verify_password(password.as_bytes(), &parsed).is_ok(),
        Err(_) => false,
    }
}

/// Hashes a password with Argon2 and a fresh random salt. It succeeds unless
/// the password is longer than Argon2 allows, and whatever hash comes back
/// verifies the password.
pub fn hash_password(password: &str) -> (r: Result<String, argon2::password_hash::Error>)
    ensures
        r is Ok <==> encode_utf8(password@).len() <= MAX_PASSWORD_BYTES,
        r matches Ok(h) ==> argon2_accepts(password@, h@),
{
    let salt = generate_salt();
    argon2_hash(password, salt.as_str())
}

/// Whether `password` matches the stored Argon2 hash.
pub fn verify_password(password: &str, stored_hash: &str) -> (ok: bool)
    ensures
        ok == argon2_accepts(password@, stored_hash@),
{
    argon2_verify(password, stored_hash)
}

/// A log-in request.
pub struct LoginUserRequest {
    pub email: String,
    pub password: String,
}

/// The answer to a log-in request.
pub struct LoginUserResponse {
    pub code: u16,
    pub message: String,
}

/// A log-in request is missing a field: the e-mail is blank (only
/// whitespace) or the password is empty.
pub open spec fn login_fields_missing(email: Seq<char>, password: Seq<char>) -> bool {
    trim_seq(email).len() == 0 || password.len() == 0
}

/// Whether a log-in request must be refused before looking the user up,
/// because the e-mail is blank or the password is empty.
pub fn login_fields_are_missing(payload: &LoginUserRequest) -> (b: bool)
    ensures
        b == login_fields_missing(payload.email@, payload.password@),
{
    let email = trim(payload.email.as_str());
    email.as_str().is_empty() || payload.password.as_str().is_empty()
}

/// What every handler answers, with a 500, when storage or another service
/// fails unexpectedly.
pub const UNEXPECTED_ERROR_MESSAGE: &'static str = "An unexpected error occurred. Please try again later.";

/// The answer to a log-in request, given the stored password hash of the
/// e-mail (`None` when no account has it): 400 when a field is missing
/// (checked before anything is looked up), 401 when there is no such account
/// or the password does not verify, 200 otherwise.
pub open spec fn login_reply_of(email: Seq<char>, password: Seq<char>, stored_hash: Option<Seq<char>>) -> (
    u16,
    Seq<char>,
) {
    if login_fields_missing(email, password) {
        (400, "Email and password are required"@)
    } else {
        match stored_hash {
            Some(h) => if argon2_accepts(password, h) {
                (200, "Login successful"@)
            } else {
                (401, "Invalid email or password"@)
            },
            None => (401, "Invalid email or password"@),
        }
    }
}

/// Answers a log-in request, given the stored password hash of its e-mail.
pub fn login_reply(payload: &LoginUserRequest, stored_hash: Option<&str>) -> (r: LoginUserResponse)
    ensures
        (r.code, r.message@) == login_reply_of(
            payload.email@,
            payload.password@,
            match stored_hash {
                Some(h) => Some(h@),
                None => None,
            },
        ),
{
    if login_fields_are_missing(payload) {
        return LoginUserResponse { code: 400, message: owned("Email and password are required") };
    }
    match stored_hash {
        Some(h) => {
            if verify_password(payload.password.as_str(), h) {
                LoginUserResponse { code: 200, message: owned("Login successful") }
            } else {
                LoginUserResponse { code: 401, message: owned("Invalid email or password") }
            }
        },
        None => LoginUserResponse { code: 401, message: owned("Invalid email or password") },
    }
}

} // verus!
