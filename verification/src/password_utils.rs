use vstd::prelude::*;

verus! {

/// The error type of the password hashing crates.
#[verifier::external_type_specification]
#[verifier::external_body]
pub struct ExPasswordHashError(password_hash::Error);

/// Whether Argon2 accepts `password` for the stored hash `hash`: the hash is
/// a well-formed hash string, and hashing the password with the algorithm,
/// the parameters and the salt that the string names yields the output that
/// the string holds.
pub uninterp spec fn argon2_accepts(hash: Seq<char>, password: Seq<char>) -> bool;

/// Hashes a password with Argon2 in its default setting and a fresh random
/// salt, and returns the hash string.
///
/// Trusted: `SaltString::generate` draws the salt from the operating
/// system, and `Argon2::hash_password` computes the hash. The result
/// depends on that salt; what is claimed of it is that Argon2 accepts the
/// password for it.
#[verifier::external_body]
pub fn hash_password(password: &str) -> (hashed: Result<String, password_hash::Error>)
    ensures
        hashed matches Ok(h) ==> argon2_accepts(h@, password@),
{
    let salt = password_hash::SaltString::generate(&mut password_hash::rand_core::OsRng);
    let argon2 = argon2::Argon2::default();
    match argon2::PasswordHasher::hash_password(&argon2, password.as_bytes(), &salt) {
        Ok(hash) => Ok(hash.to_string()),
        Err(e) => Err(e),
    }
}

/// Whether `password` is the password that the stored hash `hash` was made
/// from. A string that is no hash string is the hash of no password.
///
/// Trusted: `PasswordHash::new` reads the hash string, and
/// `Argon2::verify_password` hashes the password again as the string says
/// and compares. The result depends on the two arguments alone.
#[verifier::external_body]
pub fn verify_password(hash: &str, password: &str) -> (accepted: bool)
    ensures
        accepted == argon2_accepts(hash@, password@),
{
    match password_hash::PasswordHash::new(hash) {
        Ok(parsed) => {
            let argon2 = argon2::Argon2::default();
            password_hash::PasswordVerifier::verify_password(
                &argon2,
                password.as_bytes(),
                &parsed,
            ).is_ok()
        },
        Err(_) => false,
    }
}

} // verus!
