//! Authenticated encryption with XChaCha20-Poly1305 under 32-byte keys,
//! through the `chacha20poly1305` crate, and BLAKE3 key derivation.
use vstd::prelude::*;
use chacha20poly1305::aead::{Aead, Payload};
use chacha20poly1305::{KeyInit, XChaCha20Poly1305, XNonce};
use crate::text::{utf8, str_equal, push_bytes};
use crate::json::{json_text, json_byte_array, dec, push_json_str,
    push_json_byte_array, push_dec, push_json_key};
use crate::entropy::random_bytes;

verus! {

/// The ciphertext and tag that XChaCha20-Poly1305 makes of `msg` under a key,
/// a nonce and associated data.
pub uninterp spec fn xchacha_seal(key: Seq<u8>, nonce: Seq<u8>, msg: Seq<u8>, aad: Seq<u8>) -> Seq<u8>;

/// What XChaCha20-Poly1305 decryption gives: the plaintext, or nothing when
/// authentication fails.
pub uninterp spec fn xchacha_open(key: Seq<u8>, nonce: Seq<u8>, ct: Seq<u8>, aad: Seq<u8>) -> Option<
    Seq<u8>,
>;

/// The key that `blake3::derive_key` derives from key material in a context.
pub uninterp spec fn blake3_derived(context: Seq<char>, material: Seq<u8>) -> Seq<u8>;

/// `Aead::encrypt` of `XChaCha20Poly1305`. It fails exactly when the message
/// has `u32::MAX` or more 64-byte blocks; otherwise the ciphertext is the
/// named function of its inputs, and decrypting it with the same key, nonce
/// and associated data gives the message back (the AEAD's correctness).
#[verifier::external_body]
fn aead_seal(key: &[u8; 32], nonce: &[u8; 24], msg: &[u8], aad: &[u8]) -> (res: Option<Vec<u8>>)
    ensures
        res is Some <==> msg@.len() / 64 < u32::MAX,
        res matches Some(c) ==> c@ == xchacha_seal(key@, nonce@, msg@, aad@),
        res matches Some(c) ==> xchacha_open(key@, nonce@, c@, aad@) == Some(msg@),
{
    let cipher = XChaCha20Poly1305::new(key.into());
    cipher.encrypt(XNonce::from_slice(nonce), Payload { msg, aad }).ok()
}

/// `Aead::decrypt` of `XChaCha20Poly1305`: the named result of its inputs.
#[verifier::external_body]
fn aead_open(key: &[u8; 32], nonce: &[u8; 24], ct: &[u8], aad: &[u8]) -> (res: Option<Vec<u8>>)
    ensures
        match xchacha_open(key@, nonce@, ct@, aad@) {
            Some(p) => res matches Some(q) && q@ == p,
            None => res is None,
        },
{
    let cipher = XChaCha20Poly1305::new(key.into());
    cipher.decrypt(XNonce::from_slice(nonce), Payload { msg: ct, aad }).ok()
}

/// `blake3::derive_key`: a 32-byte key derived from material in a context.
#[verifier::external_body]
fn blake3_derive_key(context: &str, material: &[u8; 32]) -> (res: [u8; 32])
    ensures
        res@ == blake3_derived(context@, material@),
{
    blake3::derive_key(context, material)
}

/// Why an encryption or decryption failed.
#[derive(Debug)]
pub enum CryptoError {
    Encrypt,
    Authenticate,
    Version,
}

/// A 32-byte symmetric key.
#[derive(Clone)]
pub struct SecretKey(pub [u8; 32]);

/// An encrypted payload with its algorithm and nonce.
#[derive(Clone, Debug, PartialEq, Eq)]
pub struct Envelope {
    pub version: u16,
    pub algorithm: String,
    pub nonce: [u8; 24],
    pub ciphertext: Vec<u8>,
}

/// The algorithm name an envelope carries.
pub open spec fn algorithm_name() -> Seq<char> {
    "XChaCha20-Poly1305"@
}

impl SecretKey {
    /// A fresh key from operating-system randomness.
    pub fn random() -> (res: Self) {
        let bytes = random_bytes(32);
        SecretKey(crate::entropy::to_array32(&bytes))
    }

    /// The subkey of this key for a context.
    pub fn derive(&self, context: &'static str) -> (res: Self)
        ensures
            res.0@ == blake3_derived(context@, self.0@),
    {
        SecretKey(blake3_derive_key(context, &self.0))
    }
}

/// The 24-byte nonce of a fresh envelope.
fn random_nonce() -> (res: [u8; 24]) {
    let bytes = random_bytes(24);
    let mut out = [0u8; 24];
    let mut i: usize = 0;
    while i < 24
        invariant
            bytes@.len() == 24,
            0 <= i <= 24,
        decreases 24 - i,
    {
        out[i] = bytes[i];
        i = i + 1;
    }
    out
}

/// Encrypts with a fresh random nonce. The nonce is not stated; the
/// ciphertext is the seal of the plaintext under that nonce.
pub fn encrypt(key: &SecretKey, plaintext: &[u8], aad: &[u8]) -> (res: Result<Envelope, CryptoError>)
    ensures
        res is Ok <==> plaintext@.len() / 64 < u32::MAX,
        res is Err ==> res matches Err(CryptoError::Encrypt),
        res matches Ok(e) ==> {
            &&& e.version == 1
            &&& e.algorithm@ == algorithm_name()
            &&& e.ciphertext@ == xchacha_seal(key.0@, e.nonce@, plaintext@, aad@)
            &&& xchacha_open(key.0@, e.nonce@, e.ciphertext@, aad@) == Some(plaintext@)
        },
{
    let nonce = random_nonce();
    seal_with_nonce(key, &nonce, plaintext, aad)
}

/// Encrypts under a given nonce.
pub fn seal_with_nonce(key: &SecretKey, nonce: &[u8; 24], plaintext: &[u8], aad: &[u8]) -> (res:
    Result<Envelope, CryptoError>)
    ensures
        res is Ok <==> plaintext@.len() / 64 < u32::MAX,
        res is Err ==> res matches Err(CryptoError::Encrypt),
        res matches Ok(e) ==> {
            &&& e.version == 1
            &&& e.algorithm@ == algorithm_name()
            &&& e.nonce == *nonce
            &&& e.ciphertext@ == xchacha_seal(key.0@, nonce@, plaintext@, aad@)
            &&& xchacha_open(key.0@, e.nonce@, e.ciphertext@, aad@) == Some(plaintext@)
        },
{
    match aead_seal(&key.0, nonce, plaintext, aad) {
        None => Err(CryptoError::Encrypt),
        Some(ciphertext) => Ok(
            Envelope {
                version: 1,
                algorithm: "XChaCha20-Poly1305".to_owned(),
                nonce: *nonce,
                ciphertext,
            },
        ),
    }
}

/// What `decrypt` answers.
pub open spec fn decrypt_outcome(key: Seq<u8>, e: &Envelope, aad: Seq<u8>) -> Result<
    Seq<u8>,
    CryptoError,
> {
    if e.version != 1 || e.algorithm@ != algorithm_name() {
        Err(CryptoError::Version)
    } else {
        match xchacha_open(key, e.nonce@, e.ciphertext@, aad) {
            Some(p) => Ok(p),
            None => Err(CryptoError::Authenticate),
        }
    }
}

/// Decrypts an envelope of version 1 and algorithm XChaCha20-Poly1305.
pub fn decrypt(key: &SecretKey, envelope: &Envelope, aad: &[u8]) -> (res: Result<
    Vec<u8>,
    CryptoError,
>)
    ensures
        match decrypt_outcome(key.0@, envelope, aad@) {
            Ok(p) => res matches Ok(q) && q@ == p,
            Err(e) => res matches Err(f) && f == e,
        },
{
    if envelope.version != 1 || !str_equal(envelope.algorithm.as_str(), "XChaCha20-Poly1305") {
        return Err(CryptoError::Version);
    }
    match aead_open(&key.0, &envelope.nonce, envelope.ciphertext.as_slice(), aad) {
        Some(p) => Ok(p),
        None => Err(CryptoError::Authenticate),
    }
}

/// An envelope as JSON, as `serde_json` writes it.
pub open spec fn envelope_json(e: &Envelope) -> Seq<u8> {
    seq![123u8] + json_text("version"@) + seq![58u8] + dec(e.version as nat) + seq![44u8]
        + json_text("algorithm"@) + seq![58u8] + json_text(e.algorithm@) + seq![44u8] + json_text(
        "nonce"@,
    ) + seq![58u8] + json_byte_array(e.nonce@) + seq![44u8] + json_text("ciphertext"@) + seq![58u8]
        + json_byte_array(e.ciphertext@) + seq![125u8]
}

/// Appends an envelope as JSON.
pub fn push_envelope_json(out: &mut Vec<u8>, e: &Envelope)
    ensures
        final(out)@ == old(out)@ + envelope_json(e),
{
    out.push(123);
    push_json_key(out, "version");
    push_dec(out, e.version as u64);
    out.push(44);
    push_json_key(out, "algorithm");
    push_json_str(out, e.algorithm.as_str());
    out.push(44);
    push_json_key(out, "nonce");
    push_json_byte_array(out, &e.nonce);
    out.push(44);
    push_json_key(out, "ciphertext");
    push_json_byte_array(out, e.ciphertext.as_slice());
    out.push(125);
    assert(out@ =~= old(out)@ + envelope_json(e));
}

/// What is encrypted under a key, nonce and associated data decrypts with
/// them to itself.
pub proof fn law_decrypt_undoes_encrypt(key: Seq<u8>, e: &Envelope, plaintext: Seq<u8>, aad: Seq<u8>)
    requires
        e.version == 1,
        e.algorithm@ == algorithm_name(),
        xchacha_open(key, e.nonce@, e.ciphertext@, aad) == Some(plaintext),
    ensures
        decrypt_outcome(key, e, aad) == Ok::<Seq<u8>, CryptoError>(plaintext),
{
}

} // verus!
