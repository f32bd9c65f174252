//! Ed25519 primitives from `ed25519-dalek`.

use vstd::prelude::*;
use ed25519_dalek::{Signature, Verifier, VerifyingKey};

verus! {

/// The 32 bytes decode to a point on the curve (a usable public key).
pub uninterp spec fn ed25519_point_valid(public_key: Seq<u8>) -> bool;

/// `VerifyingKey::verify` accepts the 64-byte signature of the message
/// under the 32-byte public key.
pub uninterp spec fn ed25519_accepts(public_key: Seq<u8>, message: Seq<u8>, signature: Seq<u8>) -> bool;

/// `VerifyingKey::verify_strict` accepts the 64-byte signature of the
/// message under the 32-byte public key.
pub uninterp spec fn ed25519_accepts_strict(
    public_key: Seq<u8>,
    message: Seq<u8>,
    signature: Seq<u8>,
) -> bool;

/// `VerifyingKey::from_bytes`: whether 32 bytes decompress to a curve
/// point.
#[verifier::external_body]
pub(crate) fn ed25519_key_valid(public_key: &[u8]) -> (r: bool)
    requires
        public_key@.len() == 32,
    ensures
        r == ed25519_point_valid(public_key@),
{
    let bytes: [u8; 32] = public_key.try_into().unwrap();
    VerifyingKey::from_bytes(&bytes).is_ok()
}

/// `Verifier::verify` of `VerifyingKey`: whether the signature verifies
/// over the message; never for a key that is not a curve point.
#[verifier::external_body]
pub(crate) fn ed25519_verify(public_key: &[u8], message: &[u8], signature: &[u8]) -> (r: bool)
    requires
        public_key@.len() == 32,
        signature@.len() == 64,
    ensures
        r == ed25519_accepts(public_key@, message@, signature@),
        r ==> ed25519_point_valid(public_key@),
{
    let key_bytes: [u8; 32] = public_key.try_into().unwrap();
    let sig_bytes: [u8; 64] = signature.try_into().unwrap();
    match VerifyingKey::from_bytes(&key_bytes) {
        Ok(k) => k.verify(message, &Signature::from_bytes(&sig_bytes)).is_ok(),
        Err(_) => false,
    }
}

/// `VerifyingKey::verify_strict`: whether the signature verifies over the
/// message with canonical `S` and no small-order points; never for a key
/// that is not a curve point.
#[verifier::external_body]
pub(crate) fn ed25519_verify_strict(public_key: &[u8], message: &[u8], signature: &[u8]) -> (r: bool)
    requires
        public_key@.len() == 32,
        signature@.len() == 64,
    ensures
        r == ed25519_accepts_strict(public_key@, message@, signature@),
        r ==> ed25519_point_valid(public_key@),
{
    let key_bytes: [u8; 32] = public_key.try_into().unwrap();
    let sig_bytes: [u8; 64] = signature.try_into().unwrap();
    match VerifyingKey::from_bytes(&key_bytes) {
        Ok(k) => k.verify_strict(message, &Signature::from_bytes(&sig_bytes)).is_ok(),
        Err(_) => false,
    }
}

} // verus!
