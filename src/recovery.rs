//! Public-key recovery from a 65-byte recoverable signature.

use vstd::prelude::*;

verus! {

/// The compressed (33-byte SEC1) public key that secp256k1 recovery yields for
/// the 64-byte `r || s` signature, the recovery id and the prehashed digest,
/// or `None` where recovery fails.
pub uninterp spec fn recovered_key_of(rs: Seq<u8>, recovery_id: u8, digest: Seq<u8>) -> Option<Seq<u8>>;

/// Relies on k256: `Signature::from_slice` on the 64 bytes,
/// `RecoveryId::try_from` on the id and `VerifyingKey::recover_from_prehash`,
/// with the key written by `to_encoded_point(true)`. The result depends on the
/// arguments alone and a recovered key is 33 bytes long.
#[verifier::external_body]
fn recover_prehash(rs: &[u8], recovery_id: u8, digest: &[u8]) -> (r: Option<Vec<u8>>)
    ensures
        r matches Some(k) ==> recovered_key_of(rs@, recovery_id, digest@) == Some(k@) && k@.len()
            == 33,
        r is None ==> recovered_key_of(rs@, recovery_id, digest@) is None,
{
    let sig = k256::ecdsa::Signature::from_slice(rs).ok()?;
    let rid = k256::ecdsa::RecoveryId::try_from(recovery_id).ok()?;
    let key = k256::ecdsa::VerifyingKey::recover_from_prehash(digest, &sig, rid).ok()?;
    Some(key.to_encoded_point(true).as_bytes().to_vec())
}

/// The recovery id carried in a signature's last byte: the EVM offset 27 is
/// taken off where the byte exceeds 26.
pub open spec fn normalized_recovery_id(v: u8) -> u8 {
    if v > 26 {
        (v - 27) as u8
    } else {
        v
    }
}

/// The public key that signed `digest`, as `recover` finds it.
pub open spec fn recover_spec(signature: Seq<u8>, digest: Seq<u8>) -> Option<Seq<u8>> {
    let rid = normalized_recovery_id(signature[64]);
    if rid > 1 {
        None
    } else {
        recovered_key_of(signature.subrange(0, 64), rid, digest)
    }
}

/// Recovers the compressed public key that produced `signature` over `digest`.
/// `None` where the recovery id is not 0 or 1 (after taking off 27), the
/// signature is malformed or no key recovers.
pub fn recover(signature: &[u8], digest: &[u8]) -> (r: Option<Vec<u8>>)
    requires
        signature@.len() == 65,
    ensures
        r matches Some(k) ==> recover_spec(signature@, digest@) == Some(k@) && k@.len() == 33,
        r is None ==> recover_spec(signature@, digest@) is None,
{
    let v = signature[64];
    let rid: u8 = if v > 26 {
        v - 27
    } else {
        v
    };
    if rid > 1 {
        return None;
    }
    let rs = vstd::slice::slice_subrange(signature, 0, 64);
    recover_prehash(rs, rid, digest)
}

} // verus!
