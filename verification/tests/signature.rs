use k256::ecdsa::signature::Signer;
use k256::ecdsa::{Signature, SigningKey, VerifyingKey};
use simple_core::signature::verify;
use simple_core::ProtocolError;

fn server_key() -> SigningKey {
    SigningKey::from_slice(&[7u8; 32]).unwrap()
}

fn public_bytes(key: &SigningKey) -> Vec<u8> {
    VerifyingKey::from(key).to_sec1_bytes().to_vec()
}

fn sign(key: &SigningKey, digest: &[u8; 32]) -> Vec<u8> {
    let signature: Signature = key.sign(digest);
    signature.to_vec()
}

#[test]
fn valid_signature_verifies() {
    let key = server_key();
    let digest = [0x5au8; 32];
    let signature = sign(&key, &digest);
    assert_eq!(verify(&digest, &signature, &public_bytes(&key)), Ok(true));
}

#[test]
fn uncompressed_key_is_accepted() {
    let key = server_key();
    let digest = [0x5au8; 32];
    let signature = sign(&key, &digest);
    let point = VerifyingKey::from(&key).to_encoded_point(false);
    assert_eq!(point.as_bytes().len(), 65);
    assert_eq!(verify(&digest, &signature, point.as_bytes()), Ok(true));
}

#[test]
fn signature_over_another_digest_is_reported_as_false() {
    let key = server_key();
    let signature = sign(&key, &[0x5au8; 32]);
    assert_eq!(verify(&[0x5bu8; 32], &signature, &public_bytes(&key)), Ok(false));
}

#[test]
fn signature_of_another_key_is_reported_as_false() {
    let key = server_key();
    let other = SigningKey::from_slice(&[8u8; 32]).unwrap();
    let digest = [0x5au8; 32];
    let signature = sign(&other, &digest);
    assert_eq!(verify(&digest, &signature, &public_bytes(&key)), Ok(false));
}

#[test]
fn malformed_key_is_an_encoding_error() {
    let key = server_key();
    let digest = [0x5au8; 32];
    let signature = sign(&key, &digest);
    assert_eq!(verify(&digest, &signature, &[]), Err(ProtocolError::InvalidKeyEncoding));
    assert_eq!(verify(&digest, &signature, &[0u8; 33]), Err(ProtocolError::InvalidKeyEncoding));
    let mut short = public_bytes(&key);
    short.pop();
    assert_eq!(verify(&digest, &signature, &short), Err(ProtocolError::InvalidKeyEncoding));
}

#[test]
fn malformed_signature_is_an_encoding_error() {
    let key = server_key();
    let digest = [0x5au8; 32];
    let public = public_bytes(&key);
    assert_eq!(verify(&digest, &[], &public), Err(ProtocolError::InvalidSignatureEncoding));
    assert_eq!(verify(&digest, &[0u8; 64], &public), Err(ProtocolError::InvalidSignatureEncoding));
    assert_eq!(verify(&digest, &[0xffu8; 64], &public), Err(ProtocolError::InvalidSignatureEncoding));
    let mut long = sign(&key, &digest);
    long.push(0);
    assert_eq!(verify(&digest, &long, &public), Err(ProtocolError::InvalidSignatureEncoding));
}

#[test]
fn malformed_key_is_reported_before_malformed_signature() {
    assert_eq!(verify(&[0u8; 32], &[], &[]), Err(ProtocolError::InvalidKeyEncoding));
}

#[test]
fn verification_is_deterministic() {
    let key = server_key();
    let digest = [0x11u8; 32];
    let signature = sign(&key, &digest);
    let public = public_bytes(&key);
    assert_eq!(verify(&digest, &signature, &public), verify(&digest, &signature, &public));
}

#[test]
fn high_s_twin_of_a_valid_signature_is_reported_as_false() {
    let key = server_key();
    let digest = [0x5au8; 32];
    let signature: Signature = key.sign(&digest);
    let (r, s) = signature.split_scalars();
    let twin = Signature::from_scalars(r, -s).unwrap();
    assert_ne!(twin.to_vec(), signature.to_vec());
    assert_eq!(verify(&digest, &twin.to_vec(), &public_bytes(&key)), Ok(false));
}

#[test]
fn flipping_a_byte_of_the_key_never_verifies() {
    let key = server_key();
    let digest = [0x5au8; 32];
    let signature = sign(&key, &digest);
    let public = public_bytes(&key);
    for i in 0..public.len() {
        let mut tampered = public.clone();
        tampered[i] ^= 0x01;
        assert_ne!(verify(&digest, &signature, &tampered), Ok(true));
    }
}
