//! Binding a recovered public key to a local account.

use vstd::prelude::*;
use crate::hashing::{blake2_256, blake2_of, bytes_eq};

verus! {

/// The account that a compressed public key controls: the Blake2b-256 digest of
/// the key, read as a 32-byte account identifier.
pub open spec fn account_of(public_key: Seq<u8>) -> Seq<u8> {
    blake2_of(public_key)
}

/// The account that `public_key` controls.
pub fn bind(public_key: &[u8]) -> (r: Vec<u8>)
    ensures
        r@ == account_of(public_key@),
        r@.len() == 32,
{
    blake2_256(public_key)
}

/// Whether `public_key` controls the claimed account.
pub fn verify_claim(claimed: &[u8], public_key: &[u8]) -> (r: bool)
    ensures
        r == (account_of(public_key@) == claimed@),
{
    let bound = bind(public_key);
    bytes_eq(bound.as_slice(), claimed)
}

} // verus!
