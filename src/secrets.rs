//! Password hashing with Argon2 and generation of random secrets.

use vstd::prelude::*;

verus! {

/// The cost parameters of a password hash.
#[derive(Clone, Copy, Debug, PartialEq, Eq, Structural)]
pub struct HashParams {
    /// Length of the raw hash, in bytes.
    pub hash_length: u32,
    /// Number of parallel lanes.
    pub lanes: u32,
    /// Memory cost, in KiB.
    pub mem_cost: u32,
    /// Number of passes over the memory.
    pub time_cost: u32,
    /// Argon2 variant: 0 for Argon2d, 1 for Argon2i, 2 for Argon2id.
    pub variant: u32,
}

/// Errors of the secret-generation functions.
#[derive(Clone, Copy, Debug, PartialEq, Eq, Structural)]
pub enum SecretError {
    /// The system random source failed.
    Random,
    /// The hash could not be computed.
    Hashing,
}

pub const HASH_LENGTH: u32 = 32;
pub const HASH_LANES: u32 = 4;
pub const HASH_MEM_COST: u32 = 8192;
pub const HASH_TIME_COST: u32 = 3;
pub const HASH_VARIANT: u32 = 2;
pub const SALT_LENGTH: usize = 16;

/// The fixed parameters of the administrator's password hash.
pub open spec fn password_params() -> HashParams {
    HashParams {
        hash_length: HASH_LENGTH,
        lanes: HASH_LANES,
        mem_cost: HASH_MEM_COST,
        time_cost: HASH_TIME_COST,
        variant: HASH_VARIANT,
    }
}

/// Parameters that Argon2 accepts.
pub open spec fn params_accepted(p: HashParams) -> bool {
    &&& 1 <= p.lanes <= 0x00FF_FFFF
    &&& 8 <= p.mem_cost <= 0x20_0000
    &&& 8 * (p.lanes as int) <= p.mem_cost as int
    &&& 1 <= p.time_cost
    &&& 4 <= p.hash_length
    &&& p.variant <= 2
}

/// A salt length that Argon2 accepts.
pub open spec fn salt_accepted(salt: Seq<u8>) -> bool {
    8 <= salt.len() <= 0xFFFF_FFFF
}

/// Argon2's encoded hash string (algorithm, parameters, salt and hash) of a
/// password's UTF-8 bytes.
pub uninterp spec fn argon2_encoded(password: Seq<char>, salt: Seq<u8>, params: HashParams) -> Seq<char>;

/// What Argon2 verification of a password against an encoded hash string
/// yields: `None` where the string cannot be decoded.
pub uninterp spec fn argon2_verified(encoded: Seq<char>, password: Seq<char>) -> Option<bool>;

/// `encoded` is a hash of `password` made with the fixed parameters and a
/// salt of the fixed length.
pub open spec fn is_password_hash(encoded: Seq<char>, password: Seq<char>) -> bool {
    exists|salt: Seq<u8>|
        salt.len() == SALT_LENGTH && encoded == #[trigger] argon2_encoded(password, salt, password_params())
}

/// Relies on argon2::hash_encoded (version 1.3, the crate's default, without
/// secret or associated data): it computes the encoded hash of the password's
/// bytes, and fails only on parameters, salt or password length outside the
/// limits it checks.
#[verifier::external_body]
fn argon2_hash_encoded(password: &str, salt: &[u8], params: HashParams) -> (r: Option<String>)
    ensures
        r matches Some(s) ==> s@ == argon2_encoded(password@, salt@, params),
        params_accepted(params) && salt_accepted(salt@) && password@.len() <= 0x3FFF_FFFF
            ==> r is Some,
{
    let config = argon2::Config {
        hash_length: params.hash_length,
        lanes: params.lanes,
        mem_cost: params.mem_cost,
        time_cost: params.time_cost,
        variant: argon2::Variant::from_u32(params.variant).ok()?,
        thread_mode: argon2::ThreadMode::from_threads(params.lanes),
        ..argon2::Config::default()
    };
    argon2::hash_encoded(password.as_bytes(), salt, &config).ok()
}

/// Relies on argon2::verify_encoded: it decodes parameters, salt and hash from
/// the string and recomputes the hash of the password's bytes, so a string made
/// by argon2::hash_encoded from the same password verifies.
#[verifier::external_body]
fn argon2_verify_encoded(encoded: &str, password: &str) -> (r: Option<bool>)
    ensures
        r == argon2_verified(encoded@, password@),
        forall|salt: Seq<u8>, p: HashParams|
            params_accepted(p) && salt_accepted(salt) && password@.len() <= 0x3FFF_FFFF
                && encoded@ == #[trigger] argon2_encoded(password@, salt, p) ==> r == Some(true),
{
    argon2::verify_encoded(encoded, password.as_bytes()).ok()
}

/// Relies on ring::rand::SystemRandom::fill: it fills the array from the
/// operating system's random source, or fails.
#[verifier::external_body]
fn fill_random<const N: usize>() -> (r: Option<[u8; N]>)
{
    let mut buf = [0u8; N];
    match ring::rand::SecureRandom::fill(&ring::rand::SystemRandom::new(), &mut buf) {
        Ok(()) => Some(buf),
        Err(_) => None,
    }
}

/// Hashes a password with the fixed parameters and the given salt.
pub fn hash_with_salt(password: &str, salt: &[u8; 16]) -> (r: Result<String, SecretError>)
    ensures
        r matches Ok(s) ==> s@ == argon2_encoded(password@, salt@, password_params()),
        password@.len() <= 0x3FFF_FFFF ==> r is Ok,
        r matches Err(e) ==> e == SecretError::Hashing,
{
    let params = HashParams {
        hash_length: HASH_LENGTH,
        lanes: HASH_LANES,
        mem_cost: HASH_MEM_COST,
        time_cost: HASH_TIME_COST,
        variant: HASH_VARIANT,
    };
    match argon2_hash_encoded(password, salt.as_slice(), params) {
        Some(s) => Ok(s),
        None => Err(SecretError::Hashing),
    }
}

/// Hashes a password with Argon2 and a fresh random 128-bit salt.
pub fn init_password(password: &str) -> (r: Result<String, SecretError>)
    ensures
        r matches Ok(s) ==> is_password_hash(s@, password@),
        r matches Err(e) ==> e == SecretError::Random || (e == SecretError::Hashing
            && password@.len() > 0x3FFF_FFFF),
{
    match fill_random::<16>() {
        None => Err(SecretError::Random),
        Some(salt) => {
            let r = hash_with_salt(password, &salt);
            proof {
                if r is Ok {
                    assert(salt@.len() == SALT_LENGTH);
                }
            }
            r
        },
    }
}

/// Validates a password against an encoded hash. A malformed hash yields
/// `false`, as a wrong password does.
pub fn validate(password: &str, hash: &str) -> (r: bool)
    ensures
        r == (argon2_verified(hash@, password@) == Some(true)),
        is_password_hash(hash@, password@) && password@.len() <= 0x3FFF_FFFF ==> r,
{
    let v = argon2_verify_encoded(hash, password);
    proof {
        if is_password_hash(hash@, password@) && password@.len() <= 0x3FFF_FFFF {
            let salt = choose|salt: Seq<u8>|
                salt.len() == SALT_LENGTH && hash@ == #[trigger] argon2_encoded(password@, salt, password_params());
            assert(params_accepted(password_params()));
            assert(salt_accepted(salt));
        }
    }
    match v {
        Some(b) => b,
        None => false,
    }
}

/// Returns a randomly generated 256-bit token-signing secret.
pub fn new_secret() -> (r: Result<[u8; 32], SecretError>)
    ensures
        r matches Err(e) ==> e == SecretError::Random,
{
    match fill_random::<32>() {
        Some(b) => Ok(b),
        None => Err(SecretError::Random),
    }
}

} // verus!
