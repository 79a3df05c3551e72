//! The hash primitive of the host environment.
//!
//! The registry's commitment is built from SHA-256, which the Soroban host
//! environment provides through [`soroban_sdk::Env`]. The digest itself is
//! not modelled: [`sha256_of`] names the result as a pure function of the
//! input bytes, and everything the rest of the crate proves about
//! commitments is relative to that name.

use vstd::prelude::*;

verus! {

/// The environment handle of the Soroban host, carried through the
/// registry's operations so that they can reach the host's hash function.
/// The crate treats it as opaque.
#[verifier::external_type_specification]
#[verifier::external_body]
pub struct ExEnv(soroban_sdk::Env);

/// The SHA-256 digest of a byte sequence. SHA-256 is a function of the
/// input bytes alone, so the digest is named rather than modelled.
pub uninterp spec fn sha256_of(data: Seq<u8>) -> Seq<u8>;

/// Relies on `soroban_sdk::crypto::Crypto::sha256`: it returns the SHA-256
/// hash of the data, a digest of exactly 32 bytes determined by the input
/// bytes alone.
#[verifier::external_body]
pub(crate) fn sha256(env: &soroban_sdk::Env, data: &[u8]) -> (r: Vec<u8>)
    ensures
        r@ == sha256_of(data@),
        r@.len() == 32,
{
    let bytes = soroban_sdk::Bytes::from_slice(env, data);
    env.crypto().sha256(&bytes).to_array().to_vec()
}

} // verus!
