//! Random values, drawn from the `rand` crate. Nothing is promised of what
//! they hold: every caller is verified for all of them.
use vstd::prelude::*;

verus! {

/// `rand::random::<u64>()`: a value left to chance, of which nothing is stated.
#[verifier::external_body]
pub(crate) fn random_u64() -> u64 {
    rand::random::<u64>()
}

/// `rand::random::<u32>()`: a value left to chance, of which nothing is stated.
#[verifier::external_body]
pub(crate) fn random_u32() -> u32 {
    rand::random::<u32>()
}

/// `rand::random::<[u8; 16]>()`, as a vector: its length is 16 (the array's
/// type fixes it); its bytes are left to chance.
#[verifier::external_body]
pub(crate) fn random_bytes_16() -> (b: Vec<u8>)
    ensures
        b@.len() == 16,
{
    rand::random::<[u8; 16]>().to_vec()
}

/// `rand::thread_rng().fill_bytes` on a 32-byte array: the array's type fixes
/// its length; its bytes are left to chance.
#[verifier::external_body]
pub(crate) fn random_key_32() -> (k: [u8; 32])
{
    let mut key = [0u8; 32];
    rand::RngCore::fill_bytes(&mut rand::thread_rng(), &mut key);
    key
}

} // verus!
