//! The calls that leave this library: password hashing and the drawing of
//! random tokens. Nothing is proved of these functions; each states what the
//! called function is taken to do.

use vstd::prelude::*;

verus! {

/// What `bcrypt::verify` answers for a password and a stored hash: whether
/// the password gives the hash under the cost and salt that the hash string
/// carries, or nothing where the string is no bcrypt hash.
pub uninterp spec fn bcrypt_verify(password: Seq<char>, hash: Seq<char>) -> Option<bool>;

/// Calls `bcrypt::verify`, which splits the stored hash into cost, salt and
/// digest, hashes the password anew and compares the digests in constant
/// time. Its answer depends on the two strings alone; a malformed hash is an
/// error there and `None` here.
#[verifier::external_body]
pub(crate) fn password_matches(password: &String, hash: &String) -> (r: Option<bool>)
    ensures
        r == bcrypt_verify(password@, hash@),
{
    bcrypt::verify(password.as_bytes(), hash.as_str()).ok()
}

/// Calls `bcrypt::hash`, which draws a random salt and formats cost, salt and
/// digest as one string of 60 characters; a cost outside 4 to 31, or a
/// failing random source, is an error there and `None` here. The salt is
/// random, so the string is not determined; what is claimed is its length,
/// and that `bcrypt::verify` accepts the same password against it, since it
/// hashes again with the cost and salt read back from the string.
#[verifier::external_body]
pub(crate) fn hash_password(password: &String, cost: u32) -> (r: Option<String>)
    ensures
        r matches Some(h) ==> h@.len() == 60 && bcrypt_verify(password@, h@) == Some(true),
        !(4 <= cost <= 31) ==> r is None,
{
    bcrypt::hash(password.as_bytes(), cost).ok()
}

/// Calls `getrandom::fill` on sixteen bytes: the bytes from the system's
/// random source, or `None` where the source fails. Nothing is claimed of
/// the bytes.
#[verifier::external_body]
pub(crate) fn random_bytes() -> (r: Option<[u8; 16]>) {
    let mut bytes = [0u8; 16];
    match getrandom::fill(&mut bytes) {
        Ok(()) => Some(bytes),
        Err(_) => None,
    }
}

/// A digit of lower-case hexadecimal.
pub open spec fn is_lower_hex(c: char) -> bool {
    ('0' <= c && c <= '9') || ('a' <= c && c <= 'f')
}

/// Calls `uuid::Builder::from_random_bytes`, which keeps the bytes but for
/// the six bits of version and variant, and formats the value with
/// `Uuid::simple`: 32 digits of lower-case hexadecimal, no hyphens.
#[verifier::external_body]
pub(crate) fn token_text(bytes: [u8; 16]) -> (r: String)
    ensures
        r@.len() == 32,
        forall|i: int| 0 <= i < 32 ==> is_lower_hex(#[trigger] r@[i]),
{
    uuid::Builder::from_random_bytes(bytes).into_uuid().simple().to_string()
}

} // verus!
