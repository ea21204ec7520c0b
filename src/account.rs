//! Administrator accounts: registration hashes the password with a fresh
//! salt, login checks a password against the stored hash.
use vstd::prelude::*;
use std::num::NonZeroU8;
use rand::Rng;
use argon2::Error as Argon2Error;
use vstd::utf8::encode_utf8;
use crate::models::{Admin, RepositoryError};
use crate::text::push_char;

verus! {

#[verifier::external_type_specification]
#[verifier::external_body]
pub struct ExArgon2Error(Argon2Error);

/// Length of a salt, in characters.
pub const SALT_LEN: usize = 128;

/// The Argon2 variants.
#[derive(Debug, Clone, Copy, PartialEq, Eq, Structural)]
pub enum HashVariant {
    Argon2d,
    Argon2i,
    Argon2id,
}

/// How passwords are hashed; built once at startup and handed to `register`.
#[derive(Debug, Clone, Copy, PartialEq, Eq, Structural)]
pub struct HashConfig {
    pub hash_length: u32,
    pub time_cost: u32,
    pub variant: HashVariant,
}

#[derive(Debug)]
pub enum AdminError {
    Query(RepositoryError),
    NameInUse,
}

#[derive(Debug)]
pub enum Error {
    Hash(Argon2Error),
    Insert(AdminError),
}

#[derive(Debug)]
pub struct Credentials {
    pub name: String,
    pub password: String,
}

/// The encoded hash that Argon2 makes of `password` with `salt` and these
/// settings; `None` where it refuses them.
pub uninterp spec fn argon2_encoded(
    password: Seq<u8>,
    salt: Seq<u8>,
    hash_length: u32,
    time_cost: u32,
    variant: HashVariant,
) -> Option<Seq<char>>;

/// Whether `password` matches the encoded hash `encoded`; `None` where
/// `encoded` cannot be read.
pub uninterp spec fn argon2_matches(encoded: Seq<char>, password: Seq<u8>) -> Option<bool>;

/// Relies on `argon2::hash_encoded`: the encoded hash of `password` with
/// `salt`, one lane, the default memory cost and no secret; a function of its
/// arguments alone.
#[verifier::external_body]
fn hash_encoded(password: &[u8], salt: &[u8], config: &HashConfig) -> (r: Result<String, Argon2Error>)
    ensures
        r is Ok <==> argon2_encoded(password@, salt@, config.hash_length, config.time_cost, config.variant) is Some,
        r is Ok ==> r->Ok_0@ == argon2_encoded(password@, salt@, config.hash_length, config.time_cost, config.variant)->0,
{
    let variant = match config.variant {
        HashVariant::Argon2d => argon2::Variant::Argon2d,
        HashVariant::Argon2i => argon2::Variant::Argon2i,
        HashVariant::Argon2id => argon2::Variant::Argon2id,
    };
    let settings = argon2::Config { hash_length: config.hash_length, time_cost: config.time_cost, variant, ..argon2::Config::default() };
    argon2::hash_encoded(password, salt, &settings)
}

/// Relies on `argon2::verify_encoded`: whether `password` hashes to `encoded`
/// under the settings and salt written in it; a function of its arguments alone.
#[verifier::external_body]
fn verify_encoded(encoded: &str, password: &[u8]) -> (r: Result<bool, Argon2Error>)
    ensures
        r is Ok <==> argon2_matches(encoded@, password@) is Some,
        r is Ok ==> r->Ok_0 == argon2_matches(encoded@, password@)->0,
{
    argon2::verify_encoded(encoded, password)
}

/// Relies on `Rng::gen` for `NonZeroU8` (rand): a random byte other than zero.
#[verifier::external_body]
fn random_nonzero_byte() -> (r: u8)
    ensures
        r != 0,
{
    rand::thread_rng().gen::<NonZeroU8>().get()
}

/// The hashing settings of this application: Argon2id, a 256-byte hash, ten passes.
pub fn config() -> (r: HashConfig)
    ensures
        r == (HashConfig { hash_length: 256, time_cost: 10, variant: HashVariant::Argon2id }),
{
    HashConfig { hash_length: 256, time_cost: 10, variant: HashVariant::Argon2id }
}

/// A salt may be any `SALT_LEN` characters in `1..=255`.
pub open spec fn is_salt(s: Seq<char>) -> bool {
    &&& s.len() == SALT_LEN
    &&& forall|i: int| 0 <= i < s.len() ==> 1 <= #[trigger] (s[i] as u32) <= 255
}

/// A fresh random salt.
pub fn salt() -> (r: String)
    ensures
        is_salt(r@),
{
    let mut s = String::new();
    let mut i: usize = 0;
    while i < SALT_LEN
        invariant
            0 <= i <= SALT_LEN,
            s@.len() == i,
            forall|k: int| 0 <= k < i ==> 1 <= #[trigger] (s@[k] as u32) <= 255,
        decreases SALT_LEN - i,
    {
        let b = random_nonzero_byte();
        let c = b as char;
        push_char(&mut s, c);
        i = i + 1;
    }
    s
}

/// What `register_with_salt` returns: the hash failure first, then a taken name.
pub open spec fn registration_outcome(
    password: Seq<u8>,
    salt: Seq<u8>,
    config: HashConfig,
    name_taken: bool,
) -> Option<Result<Seq<char>, bool>> {
    match argon2_encoded(password, salt, config.hash_length, config.time_cost, config.variant) {
        None => None,
        Some(h) => Some(if name_taken { Err(true) } else { Ok(h) }),
    }
}

/// `r` is the result that `registration_outcome` describes.
pub open spec fn registered_as(r: Result<String, Error>, outcome: Option<Result<Seq<char>, bool>>) -> bool {
    match outcome {
        None => r matches Err(Error::Hash(_)),
        Some(Err(_)) => r matches Err(Error::Insert(AdminError::NameInUse)),
        Some(Ok(h)) => r is Ok && r->Ok_0@ == h,
    }
}

/// Registers `cred` with the given salt: the encoded hash of the password that
/// the new administrator is to be stored with. `existing` is the administrator
/// already stored under the same name, if any: then the name is in use.
pub fn register_with_salt(cred: &Credentials, existing: Option<&Admin>, config: &HashConfig, salt: &str) -> (r: Result<String, Error>)
    ensures
        registered_as(r, registration_outcome(encode_utf8(cred.password@), encode_utf8(salt@), *config, existing is Some)),
{
    let hashed = hash_encoded(cred.password.as_str().as_bytes(), salt.as_bytes(), config);
    match hashed {
        Err(e) => Err(Error::Hash(e)),
        Ok(h) => match existing {
            Some(_) => Err(Error::Insert(AdminError::NameInUse)),
            None => Ok(h),
        },
    }
}

/// Registers `cred`: hashes its password with a fresh salt and returns the
/// encoded hash that the new administrator is to be stored with. `existing`
/// is the administrator already stored under the same name, if any: then the
/// name is in use. Hashing failures come first.
pub fn register(cred: &Credentials, existing: Option<&Admin>, config: &HashConfig) -> (r: Result<String, Error>)
    ensures
        exists|s: Seq<char>|
            is_salt(s) && #[trigger] registered_as(
                r,
                registration_outcome(encode_utf8(cred.password@), encode_utf8(s), *config, existing is Some),
            ),
{
    let s = salt();
    register_with_salt(cred, existing, config, s.as_str())
}

/// Checks `cred` against `admin`, the administrator stored under its name:
/// `false` when there is none, else whether the password matches the stored
/// hash. `Hash` when the stored hash cannot be read.
pub fn verify(cred: &Credentials, admin: Option<&Admin>) -> (r: Result<bool, Error>)
    ensures
        match admin {
            None => r == Ok::<bool, Error>(false),
            Some(a) => match argon2_matches(a.password@, encode_utf8(cred.password@)) {
                None => r matches Err(Error::Hash(_)),
                Some(b) => r == Ok::<bool, Error>(b),
            },
        },
{
    match admin {
        None => Ok(false),
        Some(a) => match verify_encoded(a.password.as_str(), cred.password.as_str().as_bytes()) {
            Ok(b) => Ok(b),
            Err(e) => Err(Error::Hash(e)),
        },
    }
}

} // verus!
