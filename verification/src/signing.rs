//! Ed25519 signing and verification, through the `ed25519_dalek` crate.
use vstd::prelude::*;
use ed25519_dalek::{Signature, Signer, SigningKey, Verifier, VerifyingKey};

verus! {

/// The public key that `ed25519_dalek` derives from a 32-byte secret seed.
pub uninterp spec fn ed25519_public_key_of(secret: Seq<u8>) -> Seq<u8>;

/// The deterministic Ed25519 signature of `message` under a secret seed.
pub uninterp spec fn ed25519_signature_of(secret: Seq<u8>, message: Seq<u8>) -> Seq<u8>;

/// Whether 32 bytes decompress to a curve point, so that
/// `VerifyingKey::from_bytes` accepts them.
pub uninterp spec fn ed25519_key_decodes(public_key: Seq<u8>) -> bool;

/// Whether `VerifyingKey::verify` accepts a 64-byte signature of `message`.
pub uninterp spec fn ed25519_verifies(public_key: Seq<u8>, message: Seq<u8>, signature: Seq<u8>) -> bool;

/// `SigningKey::verifying_key`: the public key of a secret seed. A key that a
/// signing key yields is a valid curve point.
#[verifier::external_body]
pub(crate) fn ed25519_derive_public(secret: &[u8; 32]) -> (res: [u8; 32])
    ensures
        res@ == ed25519_public_key_of(secret@),
        ed25519_key_decodes(res@),
{
    SigningKey::from_bytes(secret).verifying_key().to_bytes()
}

/// `SigningKey::sign`: the Ed25519 signature of `message`. A signature that a
/// signing key makes verifies under that key's public key.
#[verifier::external_body]
pub(crate) fn ed25519_sign(secret: &[u8; 32], message: &[u8]) -> (res: [u8; 64])
    ensures
        res@ == ed25519_signature_of(secret@, message@),
        ed25519_verifies(ed25519_public_key_of(secret@), message@, res@),
{
    SigningKey::from_bytes(secret).sign(message).to_bytes()
}

/// A fresh random secret seed, as `SigningKey::generate` with `OsRng` draws
/// it. Nothing is stated of its value.
#[verifier::external_body]
pub(crate) fn ed25519_generate_seed() -> (res: [u8; 32]) {
    SigningKey::generate(&mut rand_core::OsRng).to_bytes()
}

/// `VerifyingKey::from_bytes`: whether the bytes decompress to a curve point.
#[verifier::external_body]
pub(crate) fn ed25519_key_is_valid(public_key: &[u8; 32]) -> (res: bool)
    ensures
        res == ed25519_key_decodes(public_key@),
{
    VerifyingKey::from_bytes(public_key).is_ok()
}

/// `Verifier::verify` of a `VerifyingKey`: whether the signature of `message`
/// verifies under the public key.
#[verifier::external_body]
pub(crate) fn ed25519_verify(public_key: &[u8; 32], message: &[u8], signature: &[u8; 64]) -> (res: bool)
    requires
        ed25519_key_decodes(public_key@),
    ensures
        res == ed25519_verifies(public_key@, message@, signature@),
{
    match VerifyingKey::from_bytes(public_key) {
        Ok(key) => key.verify(message, &Signature::from_bytes(signature)).is_ok(),
        Err(_) => false,
    }
}

} // verus!
