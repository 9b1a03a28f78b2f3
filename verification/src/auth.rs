//! Admin password hashing and verification. The hash itself is an opaque
//! one-way function supplied by the argon2 crate; this module only pins
//! down, by name, what the outside calls return.

use vstd::prelude::*;

verus! {

use vstd::string::{is_ascii, is_ascii_spec_bytes, StringSliceAdditionalSpecFns};

/// The fixed salt every admin password is hashed with.
pub const HASH_SALT: &'static str = "5aP3v*4!1bN<x4i&3";

/// The encoded hash that argon2 produces for a password and salt under its
/// default configuration; it depends on those two arguments alone.
pub uninterp spec fn argon2_hash_of(pwd: Seq<u8>, salt: Seq<u8>) -> Seq<char>;

/// Whether argon2 accepts a password against an encoded hash, with any
/// internal error (for instance a malformed hash) reading as "no match".
/// It depends on the two arguments alone.
pub uninterp spec fn argon2_verify_of(encoded: Seq<char>, pwd: Seq<u8>) -> bool;

/// Relies on argon2::hash_encoded with the default configuration: with a
/// salt of 8 or more bytes (and inputs below the 32-bit length caps) it
/// succeeds, and returns the encoded-hash text, which begins with a `$`
/// and which argon2::verify_encoded accepts against the same password.
#[verifier::external_body]
fn argon2_hash(pwd: &str, salt: &str) -> (r: Result<String, String>)
    requires
        8 <= salt.spec_bytes().len() <= 0xFFFF_FFFF,
        pwd.spec_bytes().len() <= 0xFFFF_FFFF,
    ensures
        r is Ok,
        (r matches Ok(h) ==> h@ == argon2_hash_of(pwd.spec_bytes(), salt.spec_bytes())
            && h@.len() >= 1 && h@[0] == '$' && argon2_verify_of(h@, pwd.spec_bytes())),
{
    argon2::hash_encoded(pwd.as_bytes(), salt.as_bytes(), &argon2::Config::default()).map_err(
        |e| e.to_string(),
    )
}

/// Relies on argon2::verify_encoded: whether the password matches the
/// encoded hash, deterministic in the two arguments. Any internal error
/// during verification (for instance a malformed hash) reads as
/// "no match", never as a success.
#[verifier::external_body]
fn argon2_verify(encoded: &str, pwd: &str) -> (r: bool)
    ensures
        r == argon2_verify_of(encoded@, pwd.spec_bytes()),
{
    match argon2::verify_encoded(encoded, pwd.as_bytes()) {
        Ok(matched) => matched,
        Err(_) => false,
    }
}

/// Hashes an admin password with the application's fixed salt. The result
/// is never the stored-credential sentinel: it begins with a `$`. Only a
/// password too long for argon2's 32-bit length field is refused.
pub fn hash_password(password: &str) -> (r: Option<String>)
    ensures
        (r matches Some(h) ==> h@ == argon2_hash_of(password.spec_bytes(), HASH_SALT.spec_bytes())
            && h@.len() >= 1 && h@ != " "@ && argon2_verify_of(h@, password.spec_bytes())),
        (r is Some <==> password.spec_bytes().len() <= 0xFFFF_FFFF),
{
    let pwd_bytes: &[u8] = password.as_bytes();
    if pwd_bytes.len() > 0xFFFF_FFFF {
        return None;
    }
    assert(password.spec_bytes().len() <= 0xFFFF_FFFF);
    let salt = HASH_SALT;
    proof {
        reveal_strlit("5aP3v*4!1bN<x4i&3");
        assert(salt@.len() == 17);
    }
    if !salt.is_ascii() {
        proof {
            assert(is_ascii(salt));
        }
        return None;
    }
    proof {
        is_ascii_spec_bytes(salt);
        assert(salt.spec_bytes().len() == 17);
    }
    match argon2_hash(password, salt) {
        Ok(h) => {
            proof {
                reveal_strlit(" ");
                assert(h@[0] == '$' && " "@[0] == ' ');
                assert(h@ != " "@);
            }
            Some(h)
        },
        Err(_) => None,
    }
}

/// Whether the password matches the stored encoded hash; errors inside
/// verification read as "no match".
pub fn verify_password(encoded: &str, password: &str) -> (r: bool)
    ensures
        r == argon2_verify_of(encoded@, password.spec_bytes()),
{
    argon2_verify(encoded, password)
}

} // verus!
