//! Trusted boundary to the host cryptography of `soroban_sdk`.
//!
//! The game protocol never inspects a digest's bytes; it only needs every
//! digest to be a fixed function of the hashed bytes, so the hashes are
//! given opaque names that the rest of the library reasons about.

use vstd::prelude::*;

verus! {

#[verifier::external_type_specification]
#[verifier::external_body]
pub struct ExEnv(soroban_sdk::Env);

/// The Keccak-256 digest of a byte string.
pub uninterp spec fn keccak_of(data: Seq<u8>) -> Seq<u8>;

/// The SHA-256 digest of a byte string.
pub uninterp spec fn sha256_of(data: Seq<u8>) -> Seq<u8>;

/// The first value in 1..=6 drawn by the host PRNG after it is reseeded
/// with a 32-byte seed.
pub uninterp spec fn dice_of(seed: Seq<u8>) -> u32;

/// Relies on `soroban_sdk::crypto::Crypto::keccak256`: a 32-byte digest that
/// is a function of the input bytes alone.
#[verifier::external_body]
pub fn keccak256(env: &soroban_sdk::Env, data: &Vec<u8>) -> (r: [u8; 32])
    ensures
        r@ == keccak_of(data@),
{
    let b = soroban_sdk::Bytes::from_slice(env, data.as_slice());
    env.crypto().keccak256(&b).into()
}

/// Relies on `soroban_sdk::crypto::Crypto::sha256`: a 32-byte digest that is
/// a function of the input bytes alone.
#[verifier::external_body]
pub fn sha256(env: &soroban_sdk::Env, data: &Vec<u8>) -> (r: [u8; 32])
    ensures
        r@ == sha256_of(data@),
{
    let b = soroban_sdk::Bytes::from_slice(env, data.as_slice());
    env.crypto().sha256(&b).into()
}

/// Relies on `soroban_sdk::prng::Prng`: `seed` resets the local PRNG to a
/// state that is a function of the seed bytes alone, and `gen_range` then
/// returns a value inside the requested `1..=6` range.
#[verifier::external_body]
pub fn prng_roll(env: &soroban_sdk::Env, seed: &[u8; 32]) -> (r: u32)
    ensures
        r == dice_of(seed@),
        1 <= r <= 6,
{
    let b = soroban_sdk::Bytes::from_slice(env, seed.as_slice());
    env.prng().seed(b);
    env.prng().gen_range::<u64>(1..=6) as u32
}

} // verus!
