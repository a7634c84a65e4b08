//! Checking the server's ECDSA signature (secp256k1) over a commitment.

use crate::error::ProtocolError;
use k256::ecdsa::signature::Verifier;
use k256::ecdsa::{Signature, VerifyingKey};
use vstd::prelude::*;

verus! {

/// Whether `key` is a SEC1 encoding that `VerifyingKey::from_sec1_bytes`
/// accepts.
pub uninterp spec fn sec1_key_decodes(key: Seq<u8>) -> bool;

/// Whether `signature` is a fixed-width encoding that `Signature::from_slice`
/// accepts.
pub uninterp spec fn signature_decodes(signature: Seq<u8>) -> bool;

/// Whether key and signature both decode and the decoded key's
/// `Verifier::verify` accepts the decoded signature over `message`.
pub uninterp spec fn ecdsa_verifies(key: Seq<u8>, message: Seq<u8>, signature: Seq<u8>) -> bool;

/// What [`verify`] returns: the encoding failures, key first, and otherwise
/// whether the signature holds.
pub open spec fn signature_check(message_digest: Seq<u8>, signature: Seq<u8>, public_key: Seq<u8>)
    -> Result<bool, ProtocolError> {
    if !sec1_key_decodes(public_key) {
        Err(ProtocolError::InvalidKeyEncoding)
    } else if !signature_decodes(signature) {
        Err(ProtocolError::InvalidSignatureEncoding)
    } else {
        Ok(ecdsa_verifies(public_key, message_digest, signature))
    }
}

/// `k256::ecdsa::VerifyingKey::from_sec1_bytes`.
///
/// Trusted: whether it returns `Ok` depends on the bytes alone.
#[verifier::external_body]
fn key_decodes(key: &[u8]) -> (ok: bool)
    ensures
        ok == sec1_key_decodes(key@),
{
    VerifyingKey::from_sec1_bytes(key).is_ok()
}

/// `k256::ecdsa::Signature::from_slice`.
///
/// Trusted: whether it returns `Ok` depends on the bytes alone.
#[verifier::external_body]
fn encoding_decodes(signature: &[u8]) -> (ok: bool)
    ensures
        ok == signature_decodes(signature@),
{
    Signature::from_slice(signature).is_ok()
}

/// `Verifier::verify` of `k256::ecdsa::VerifyingKey`, on a key and a
/// signature decoded from their bytes. The verifier hashes `message` with
/// SHA-256 before it checks the signature.
///
/// Trusted: whether it returns `Ok` depends on the three byte strings alone.
#[verifier::external_body]
fn signature_holds(key: &[u8], message: &[u8], signature: &[u8]) -> (ok: bool)
    ensures
        ok == ecdsa_verifies(key@, message@, signature@),
{
    match (VerifyingKey::from_sec1_bytes(key), Signature::from_slice(signature)) {
        (Ok(verifying_key), Ok(decoded)) => verifying_key.verify(message, &decoded).is_ok(),
        _ => false,
    }
}

/// Checks the signature over a 32-byte digest.
///
/// `Ok(true)` where the signature holds and `Ok(false)` where both inputs
/// decode but it does not; `InvalidKeyEncoding` where the key is malformed,
/// else `InvalidSignatureEncoding` where the signature is.
pub fn verify(message_digest: &[u8; 32], signature_bytes: &[u8], public_key_bytes: &[u8]) -> (r:
    Result<bool, ProtocolError>)
    ensures
        r == signature_check(message_digest@, signature_bytes@, public_key_bytes@),
{
    if !key_decodes(public_key_bytes) {
        Err(ProtocolError::InvalidKeyEncoding)
    } else if !encoding_decodes(signature_bytes) {
        Err(ProtocolError::InvalidSignatureEncoding)
    } else {
        Ok(signature_holds(public_key_bytes, message_digest.as_slice(), signature_bytes))
    }
}

} // verus!
