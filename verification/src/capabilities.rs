use vstd::prelude::*;

use rand::Rng;

verus! {

/// The encoded digest that the password-hash capability derives from a
/// password and a salt; a function of its arguments alone.
pub uninterp spec fn argon2_digest(password: Seq<char>, salt: Seq<u8>) -> Seq<char>;

/// Whether the password-hash capability accepts this password against this
/// encoded digest; a function of its arguments alone.
pub uninterp spec fn argon2_verify(digest: Seq<char>, password: Seq<char>) -> bool;

/// Relies on argon2::hash_encoded of the rust-argon2 crate: with the
/// default configuration it returns an encoded digest for every salt of 8
/// to 2^32 - 1 bytes and every password of at most 2^32 - 1 bytes; the
/// digest is a function of password and salt alone; and
/// argon2::verify_encoded accepts the password the digest was derived from.
#[verifier::external_body]
pub fn hash_password(password: &str, salt: &Vec<u8>) -> (r: Option<String>)
    ensures
        r matches Some(d) ==> d@ == argon2_digest(password@, salt@),
        r matches Some(d) ==> argon2_verify(d@, password@),
        8 <= salt@.len() <= 0xFFFF_FFFFu64 && 4 * password@.len() <= 0xFFFF_FFFFu64 ==> r
            is Some,
{
    let config = argon2::Config::default();
    argon2::hash_encoded(password.as_bytes(), salt.as_slice(), &config).ok()
}

/// Relies on argon2::verify_encoded of the rust-argon2 crate: whether the
/// password matches the encoded digest is a function of its arguments
/// alone; a digest that does not parse matches nothing.
#[verifier::external_body]
pub fn verify_password(digest: &str, password: &str) -> (r: bool)
    ensures
        r == argon2_verify(digest@, password@),
{
    argon2::verify_encoded(digest, password.as_bytes()).unwrap_or(false)
}

/// Relies on uuid::Uuid::new_v4: a freshly generated random 128-bit
/// identifier; nothing is promised of its value.
#[verifier::external_body]
pub fn new_key_value() -> (r: u128) {
    uuid::Uuid::new_v4().as_u128()
}

/// Relies on rand::Rng::gen through rand::thread_rng: 32 random bytes;
/// nothing is promised of their values.
#[verifier::external_body]
pub fn random_salt() -> (r: Vec<u8>)
    ensures
        r@.len() == 32,
{
    let salt: [u8; 32] = rand::thread_rng().gen();
    salt.to_vec()
}

/// Relies on chrono::Utc::now: the current time as Unix seconds; nothing is
/// promised of its value.
#[verifier::external_body]
pub fn now_timestamp() -> (r: i64) {
    chrono::Utc::now().timestamp()
}

} // verus!
