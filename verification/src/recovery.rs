//! The recovery kit: a member's identity seed, vault key, communities and
//! vault pointers, encrypted under a key stretched from a passphrase with
//! Argon2id (through the `argon2` crate) with bounded parameters.
use vstd::prelude::*;
use argon2::{Algorithm, Argon2, Params, Version};
use crate::text::{utf8, push_str, str_equal};
use crate::json::{json_text, json_byte_array, json_text_array, json_join, dec, push_json_str,
    push_json_byte_array, push_json_str_array, push_dec, push_json_key, lemma_join_push};
use crate::order::texts;
use crate::crypto::{CryptoError, Envelope, SecretKey, encrypt, decrypt, decrypt_outcome,
    xchacha_open, algorithm_name, envelope_json, push_envelope_json};
use crate::entropy::random_bytes;

verus! {

/// The key Argon2id (version 0x13) derives into 32 bytes from a passphrase
/// and salt with the given memory, iteration and lane counts.
pub uninterp spec fn argon2id_key(passphrase: Seq<u8>, salt: Seq<u8>, memory_kib: u32, iterations: u32, lanes: u32) -> Seq<u8>;

/// `Argon2::hash_password_into` with Argon2id, version 0x13 and a 32-byte
/// output. Within the bounds that `derive` enforces the parameters are
/// accepted, and the call fails only for a passphrase longer than
/// `u32::MAX` bytes; the key is the named function of its inputs.
#[verifier::external_body]
fn argon2id_hash(passphrase: &[u8], salt: &[u8; 16], memory_kib: u32, iterations: u32, lanes: u32) -> (res:
    Option<[u8; 32]>)
    requires
        65536 <= memory_kib <= 1048576,
        3 <= iterations <= 10,
        1 <= lanes <= 4,
    ensures
        res is Some <==> passphrase@.len() <= u32::MAX,
        res matches Some(k) ==> k@ == argon2id_key(passphrase@, salt@, memory_kib, iterations, lanes),
{
    let params = Params::new(memory_kib, iterations, lanes, Some(32)).ok()?;
    let argon = Argon2::new(Algorithm::Argon2id, Version::V0x13, params);
    let mut out = [0u8; 32];
    argon.hash_password_into(passphrase, salt, &mut out).ok()?;
    Some(out)
}

/// Least memory a recovery file may ask for, in KiB.
pub const MIN_MEMORY_KIB: u32 = 64 * 1024;

/// Most memory a recovery file may ask for, in KiB.
pub const MAX_MEMORY_KIB: u32 = 1024 * 1024;

/// Memory a new recovery file uses, in KiB.
pub const DEFAULT_MEMORY_KIB: u32 = 256 * 1024;

/// Why a recovery kit was refused.
#[derive(Debug)]
pub enum RecoveryError {
    Parameters,
    Invalid,
    Crypto(CryptoError),
}

/// A vault that a recovery kit points at.
#[derive(Clone, Debug, PartialEq, Eq)]
pub struct RecoveryVaultPointer {
    pub vault_id: String,
    pub catalog_cid: String,
    pub catalog_version: u64,
    pub owner_public_key: [u8; 32],
}

/// What a recovery kit protects.
#[derive(Clone, Debug)]
pub struct RecoveryPayload {
    pub identity_seed: [u8; 32],
    pub vault_master_key: [u8; 32],
    pub community_ids: Vec<String>,
    pub control_plane_urls: Vec<String>,
    pub vaults: Vec<RecoveryVaultPointer>,
}

/// A recovery kit: the key-stretching parameters, salt and encrypted payload.
#[derive(Clone, Debug)]
pub struct RecoveryFile {
    pub format_version: u16,
    pub algorithm: String,
    pub memory_kib: u32,
    pub iterations: u32,
    pub lanes: u32,
    pub salt: [u8; 16],
    pub envelope: Envelope,
}

/// The algorithm name a recovery kit carries.
pub open spec fn kit_algorithm() -> Seq<char> {
    "Argon2id+XChaCha20-Poly1305"@
}

/// Parameters within the accepted bounds.
pub open spec fn parameters_ok(memory_kib: u32, iterations: u32, lanes: u32) -> bool {
    MIN_MEMORY_KIB <= memory_kib <= MAX_MEMORY_KIB && 3 <= iterations <= 10 && 1 <= lanes <= 4
}

/// A vault pointer as JSON.
#[verifier::opaque]
pub open spec fn pointer_json(p: RecoveryVaultPointer) -> Seq<u8> {
    seq![123u8] + json_text("vault_id"@) + seq![58u8] + json_text(p.vault_id@) + seq![44u8]
        + json_text("catalog_cid"@) + seq![58u8] + json_text(p.catalog_cid@) + seq![44u8]
        + json_text("catalog_version"@) + seq![58u8] + dec(p.catalog_version as nat) + seq![44u8]
        + json_text("owner_public_key"@) + seq![58u8] + json_byte_array(p.owner_public_key@) + seq![
        125u8,
    ]
}

/// Vault pointers as a JSON array.
pub open spec fn pointers_json(s: Seq<RecoveryVaultPointer>) -> Seq<u8> {
    seq![91u8] + json_join(s.map_values(|p: RecoveryVaultPointer| pointer_json(p))) + seq![93u8]
}

/// The keys and lists of a payload's JSON.
#[verifier::opaque]
pub open spec fn payload_head(p: &RecoveryPayload) -> Seq<u8> {
    json_text("identity_seed"@) + seq![58u8] + json_byte_array(p.identity_seed@) + seq![44u8]
        + json_text("vault_master_key"@) + seq![58u8] + json_byte_array(p.vault_master_key@)
        + seq![44u8] + json_text("community_ids"@) + seq![58u8] + json_text_array(
        texts(p.community_ids@),
    ) + seq![44u8] + json_text("control_plane_urls"@) + seq![58u8] + json_text_array(
        texts(p.control_plane_urls@),
    )
}

/// A payload as JSON, as `serde_json` writes it.
pub open spec fn payload_json(p: &RecoveryPayload) -> Seq<u8> {
    seq![123u8] + payload_head(p) + seq![44u8] + json_text("vaults"@) + seq![58u8] + pointers_json(
        p.vaults@,
    ) + seq![125u8]
}

/// The parameter members of a recovery file's JSON.
#[verifier::opaque]
pub open spec fn file_head(f: &RecoveryFile) -> Seq<u8> {
    json_text("format_version"@) + seq![58u8] + dec(f.format_version as nat) + seq![44u8]
        + json_text("algorithm"@) + seq![58u8] + json_text(f.algorithm@) + seq![44u8] + json_text(
        "memory_kib"@,
    ) + seq![58u8] + dec(f.memory_kib as nat) + seq![44u8] + json_text("iterations"@) + seq![58u8]
        + dec(f.iterations as nat) + seq![44u8] + json_text("lanes"@) + seq![58u8] + dec(
        f.lanes as nat,
    )
}

/// A recovery file as JSON.
pub open spec fn recovery_file_json(f: &RecoveryFile) -> Seq<u8> {
    seq![123u8] + file_head(f) + seq![44u8] + json_text("salt"@) + seq![58u8] + json_byte_array(
        f.salt@,
    ) + seq![44u8] + json_text("envelope"@) + seq![58u8] + envelope_json(&f.envelope) + seq![125u8]
}

/// The associated data of a recovery file: its parameters.
pub open spec fn recovery_aad_spec(f: &RecoveryFile) -> Seq<u8> {
    utf8("acm.recovery.v1|"@) + dec(f.format_version as nat) + seq![124u8] + utf8(f.algorithm@)
        + seq![124u8] + dec(f.memory_kib as nat) + seq![124u8] + dec(f.iterations as nat) + seq![
        124u8,
    ] + dec(f.lanes as nat)
}

/// The associated data of a recovery file: its parameters.
pub fn recovery_aad(file: &RecoveryFile) -> (res: Vec<u8>)
    ensures
        res@ == recovery_aad_spec(file),
{
    let mut out: Vec<u8> = Vec::new();
    push_str(&mut out, "acm.recovery.v1|");
    push_dec(&mut out, file.format_version as u64);
    out.push(124);
    push_str(&mut out, file.algorithm.as_str());
    out.push(124);
    push_dec(&mut out, file.memory_kib as u64);
    out.push(124);
    push_dec(&mut out, file.iterations as u64);
    out.push(124);
    push_dec(&mut out, file.lanes as u64);
    assert(out@ =~= recovery_aad_spec(file));
    out
}

/// Appends a vault pointer as JSON.
fn push_pointer_json(out: &mut Vec<u8>, p: &RecoveryVaultPointer)
    ensures
        final(out)@ == old(out)@ + pointer_json(*p),
{
    out.push(123);
    push_json_key(out, "vault_id");
    push_json_str(out, p.vault_id.as_str());
    out.push(44);
    push_json_key(out, "catalog_cid");
    push_json_str(out, p.catalog_cid.as_str());
    out.push(44);
    push_json_key(out, "catalog_version");
    push_dec(out, p.catalog_version);
    out.push(44);
    push_json_key(out, "owner_public_key");
    push_json_byte_array(out, &p.owner_public_key);
    out.push(125);
    reveal(pointer_json);
    assert(out@ =~= old(out)@ + pointer_json(*p));
}

/// Appends vault pointers as a JSON array.
fn push_pointers_json(out: &mut Vec<u8>, v: &Vec<RecoveryVaultPointer>)
    ensures
        final(out)@ == old(out)@ + pointers_json(v@),
{
    let ghost parts = v@.map_values(|p: RecoveryVaultPointer| pointer_json(p));
    out.push(91);
    let mut i: usize = 0;
    while i < v.len()
        invariant
            0 <= i <= v@.len(),
            parts == v@.map_values(|p: RecoveryVaultPointer| pointer_json(p)),
            out@ == old(out)@ + seq![91u8] + json_join(parts.take(i as int)),
        decreases v@.len() - i,
    {
        if i > 0 {
            out.push(44);
        }
        push_pointer_json(out, &v[i]);
        proof {
            lemma_join_push(parts.take(i as int), parts[i as int]);
            assert(parts.take(i as int).push(parts[i as int]) =~= parts.take(i + 1));
        }
        i = i + 1;
    }
    out.push(93);
    assert(parts.take(v@.len() as int) =~= parts);
    assert(out@ =~= old(out)@ + pointers_json(v@));
}

/// Appends the keys and lists of a payload's JSON.
fn push_payload_head(out: &mut Vec<u8>, p: &RecoveryPayload)
    ensures
        final(out)@ == old(out)@ + payload_head(p),
{
    push_json_key(out, "identity_seed");
    push_json_byte_array(out, &p.identity_seed);
    out.push(44);
    push_json_key(out, "vault_master_key");
    push_json_byte_array(out, &p.vault_master_key);
    out.push(44);
    push_json_key(out, "community_ids");
    push_json_str_array(out, &p.community_ids);
    out.push(44);
    push_json_key(out, "control_plane_urls");
    push_json_str_array(out, &p.control_plane_urls);
    reveal(payload_head);
    assert(out@ =~= old(out)@ + payload_head(p));
}

/// Appends a payload as JSON.
pub fn push_payload_json(out: &mut Vec<u8>, p: &RecoveryPayload)
    ensures
        final(out)@ == old(out)@ + payload_json(p),
{
    out.push(123);
    push_payload_head(out, p);
    out.push(44);
    push_json_key(out, "vaults");
    push_pointers_json(out, &p.vaults);
    out.push(125);
    assert(out@ =~= old(out)@ + payload_json(p));
}

/// Appends the parameter members of a recovery file's JSON.
fn push_file_head(out: &mut Vec<u8>, f: &RecoveryFile)
    ensures
        final(out)@ == old(out)@ + file_head(f),
{
    push_json_key(out, "format_version");
    push_dec(out, f.format_version as u64);
    out.push(44);
    push_json_key(out, "algorithm");
    push_json_str(out, f.algorithm.as_str());
    out.push(44);
    push_json_key(out, "memory_kib");
    push_dec(out, f.memory_kib as u64);
    out.push(44);
    push_json_key(out, "iterations");
    push_dec(out, f.iterations as u64);
    out.push(44);
    push_json_key(out, "lanes");
    push_dec(out, f.lanes as u64);
    reveal(file_head);
    assert(out@ =~= old(out)@ + file_head(f));
}

/// Appends a recovery file as JSON.
pub fn push_recovery_file_json(out: &mut Vec<u8>, f: &RecoveryFile)
    ensures
        final(out)@ == old(out)@ + recovery_file_json(f),
{
    out.push(123);
    push_file_head(out, f);
    out.push(44);
    push_json_key(out, "salt");
    push_json_byte_array(out, &f.salt);
    out.push(44);
    push_json_key(out, "envelope");
    push_envelope_json(out, &f.envelope);
    out.push(125);
    assert(out@ =~= old(out)@ + recovery_file_json(f));
}

/// Stretches a passphrase into a key with Argon2id, refusing parameters
/// outside the bounds before any memory is allocated.
pub fn derive(passphrase: &[u8], salt: &[u8; 16], memory_kib: u32, iterations: u32, lanes: u32) -> (res:
    Result<SecretKey, RecoveryError>)
    ensures
        !parameters_ok(memory_kib, iterations, lanes) ==> res matches Err(RecoveryError::Parameters),
        parameters_ok(memory_kib, iterations, lanes) ==> (res is Ok <==> passphrase@.len()
            <= u32::MAX),
        res is Err ==> res matches Err(RecoveryError::Parameters),
        res matches Ok(k) ==> k.0@ == argon2id_key(passphrase@, salt@, memory_kib, iterations, lanes),
{
    if memory_kib < MIN_MEMORY_KIB || memory_kib > MAX_MEMORY_KIB || iterations < 3 || iterations
        > 10 || lanes < 1 || lanes > 4 {
        return Err(RecoveryError::Parameters);
    }
    match argon2id_hash(passphrase, salt, memory_kib, iterations, lanes) {
        None => Err(RecoveryError::Parameters),
        Some(k) => Ok(SecretKey(k)),
    }
}

/// A fresh 16-byte salt.
fn random_salt() -> (res: [u8; 16]) {
    let bytes = random_bytes(16);
    let mut out = [0u8; 16];
    let mut i: usize = 0;
    while i < 16
        invariant
            bytes@.len() == 16,
            0 <= i <= 16,
        decreases 16 - i,
    {
        out[i] = bytes[i];
        i = i + 1;
    }
    out
}

/// Encrypts a payload under a key already stretched from a passphrase with
/// `salt` and the default parameters: the recovery file before it is
/// encoded.
pub fn seal_recovery_with_key(payload: &RecoveryPayload, key: &SecretKey, salt: [u8; 16]) -> (res:
    Result<RecoveryFile, RecoveryError>)
    ensures
        res is Ok <==> payload_json(payload).len() / 64 < u32::MAX,
        res is Err ==> res matches Err(RecoveryError::Crypto(CryptoError::Encrypt)),
        res matches Ok(f) ==> {
            &&& f.format_version == 1
            &&& f.algorithm@ == kit_algorithm()
            &&& f.memory_kib == DEFAULT_MEMORY_KIB
            &&& f.iterations == 3
            &&& f.lanes == 1
            &&& f.salt == salt
            &&& f.envelope.version == 1
            &&& f.envelope.algorithm@ == algorithm_name()
            &&& xchacha_open(key.0@, f.envelope.nonce@, f.envelope.ciphertext@, recovery_aad_spec(&f))
                == Some(payload_json(payload))
        },
{
    let mut file = RecoveryFile {
        format_version: 1,
        algorithm: "Argon2id+XChaCha20-Poly1305".to_owned(),
        memory_kib: DEFAULT_MEMORY_KIB,
        iterations: 3,
        lanes: 1,
        salt,
        envelope: Envelope {
            version: 1,
            algorithm: "XChaCha20-Poly1305".to_owned(),
            nonce: [0u8; 24],
            ciphertext: Vec::new(),
        },
    };
    let mut plaintext: Vec<u8> = Vec::new();
    push_payload_json(&mut plaintext, payload);
    assert(plaintext@ =~= payload_json(payload));
    let aad = recovery_aad(&file);
    match encrypt(key, &plaintext, &aad) {
        Err(e) => Err(RecoveryError::Crypto(e)),
        Ok(envelope) => {
            file.envelope = envelope;
            assert(recovery_aad_spec(&file) == aad@);
            Ok(file)
        },
    }
}

/// Encrypts a payload under a passphrase with a fresh salt and the default
/// parameters: the recovery file before it is encoded.
pub fn seal_recovery(payload: &RecoveryPayload, passphrase: &[u8]) -> (res: Result<
    RecoveryFile,
    RecoveryError,
>)
    ensures
        passphrase@.len() > u32::MAX ==> res matches Err(RecoveryError::Parameters),
        passphrase@.len() <= u32::MAX ==> (res is Ok <==> payload_json(payload).len() / 64
            < u32::MAX),
        passphrase@.len() <= u32::MAX && res is Err ==> res matches Err(
            RecoveryError::Crypto(CryptoError::Encrypt),
        ),
        res matches Ok(f) ==> {
            &&& f.format_version == 1
            &&& f.algorithm@ == kit_algorithm()
            &&& f.memory_kib == DEFAULT_MEMORY_KIB
            &&& f.iterations == 3
            &&& f.lanes == 1
            &&& f.envelope.version == 1
            &&& f.envelope.algorithm@ == algorithm_name()
            &&& xchacha_open(
                argon2id_key(passphrase@, f.salt@, f.memory_kib, f.iterations, f.lanes),
                f.envelope.nonce@,
                f.envelope.ciphertext@,
                recovery_aad_spec(&f),
            ) == Some(payload_json(payload))
        },
{
    let salt = random_salt();
    let key = match derive(passphrase, &salt, DEFAULT_MEMORY_KIB, 3, 1) {
        Err(e) => {
            return Err(e);
        },
        Ok(k) => k,
    };
    seal_recovery_with_key(payload, &key, salt)
}

/// Encrypts a payload under a passphrase: the encoded recovery file.
pub fn export(payload: &RecoveryPayload, passphrase: &[u8]) -> (res: Result<Vec<u8>, RecoveryError>)
    ensures
        passphrase@.len() > u32::MAX ==> res matches Err(RecoveryError::Parameters),
        passphrase@.len() <= u32::MAX ==> (res is Ok <==> payload_json(payload).len() / 64
            < u32::MAX),
        res matches Ok(bytes) ==> exists|f: RecoveryFile|
            {
                &&& bytes@ == #[trigger] recovery_file_json(&f)
                &&& f.format_version == 1
                &&& f.algorithm@ == kit_algorithm()
                &&& f.memory_kib == DEFAULT_MEMORY_KIB
                &&& f.iterations == 3
                &&& f.lanes == 1
                &&& f.envelope.version == 1
                &&& f.envelope.algorithm@ == algorithm_name()
                &&& xchacha_open(
                    argon2id_key(passphrase@, f.salt@, f.memory_kib, f.iterations, f.lanes),
                    f.envelope.nonce@,
                    f.envelope.ciphertext@,
                    recovery_aad_spec(&f),
                ) == Some(payload_json(payload))
            },
{
    let file = match seal_recovery(payload, passphrase) {
        Err(e) => {
            return Err(e);
        },
        Ok(f) => f,
    };
    let mut out: Vec<u8> = Vec::new();
    push_recovery_file_json(&mut out, &file);
    assert(out@ =~= recovery_file_json(&file));
    Ok(out)
}

/// What `open_recovery` answers.
pub open spec fn open_recovery_outcome(f: &RecoveryFile, passphrase: Seq<u8>) -> Result<
    Seq<u8>,
    RecoveryError,
> {
    if f.format_version != 1 || f.algorithm@ != kit_algorithm() {
        Err(RecoveryError::Invalid)
    } else if !parameters_ok(f.memory_kib, f.iterations, f.lanes) || passphrase.len() > u32::MAX {
        Err(RecoveryError::Parameters)
    } else {
        match decrypt_outcome(
            argon2id_key(passphrase, f.salt@, f.memory_kib, f.iterations, f.lanes),
            &f.envelope,
            recovery_aad_spec(f),
        ) {
            Ok(p) => Ok(p),
            Err(e) => Err(RecoveryError::Crypto(e)),
        }
    }
}

/// What `open_recovery_with_key` answers.
pub open spec fn open_with_key_outcome(f: &RecoveryFile, key: Seq<u8>) -> Result<
    Seq<u8>,
    RecoveryError,
> {
    if f.format_version != 1 || f.algorithm@ != kit_algorithm() {
        Err(RecoveryError::Invalid)
    } else {
        match decrypt_outcome(key, &f.envelope, recovery_aad_spec(f)) {
            Ok(p) => Ok(p),
            Err(e) => Err(RecoveryError::Crypto(e)),
        }
    }
}

/// Decrypts a parsed recovery file with a key already stretched from its
/// passphrase: the JSON of the payload.
pub fn open_recovery_with_key(file: &RecoveryFile, key: &SecretKey) -> (res: Result<
    Vec<u8>,
    RecoveryError,
>)
    ensures
        match open_with_key_outcome(file, key.0@) {
            Ok(p) => res matches Ok(q) && q@ == p,
            Err(RecoveryError::Crypto(e)) => res matches Err(RecoveryError::Crypto(f)) && f == e,
            Err(RecoveryError::Invalid) => res matches Err(RecoveryError::Invalid),
            Err(RecoveryError::Parameters) => res matches Err(RecoveryError::Parameters),
        },
{
    if file.format_version != 1 || !str_equal(file.algorithm.as_str(), "Argon2id+XChaCha20-Poly1305") {
        return Err(RecoveryError::Invalid);
    }
    let aad = recovery_aad(file);
    match decrypt(key, &file.envelope, &aad) {
        Err(e) => Err(RecoveryError::Crypto(e)),
        Ok(p) => Ok(p),
    }
}

/// Decrypts a parsed recovery file with a passphrase: the JSON of the
/// payload.
pub fn open_recovery(file: &RecoveryFile, passphrase: &[u8]) -> (res: Result<Vec<u8>, RecoveryError>)
    ensures
        match open_recovery_outcome(file, passphrase@) {
            Ok(p) => res matches Ok(q) && q@ == p,
            Err(RecoveryError::Crypto(e)) => res matches Err(RecoveryError::Crypto(f)) && f == e,
            Err(RecoveryError::Invalid) => res matches Err(RecoveryError::Invalid),
            Err(RecoveryError::Parameters) => res matches Err(RecoveryError::Parameters),
        },
{
    if file.format_version != 1 || !str_equal(file.algorithm.as_str(), "Argon2id+XChaCha20-Poly1305") {
        return Err(RecoveryError::Invalid);
    }
    let key = match derive(passphrase, &file.salt, file.memory_kib, file.iterations, file.lanes) {
        Err(e) => {
            return Err(e);
        },
        Ok(k) => k,
    };
    open_recovery_with_key(file, &key)
}

/// A kit sealed under a passphrase opens with that passphrase to the
/// payload's JSON.
pub proof fn law_open_undoes_seal(f: &RecoveryFile, payload: &RecoveryPayload, passphrase: Seq<u8>)
    requires
        passphrase.len() <= u32::MAX,
        f.format_version == 1,
        f.algorithm@ == kit_algorithm(),
        f.memory_kib == DEFAULT_MEMORY_KIB,
        f.iterations == 3,
        f.lanes == 1,
        f.envelope.version == 1,
        f.envelope.algorithm@ == algorithm_name(),
        xchacha_open(
            argon2id_key(passphrase, f.salt@, f.memory_kib, f.iterations, f.lanes),
            f.envelope.nonce@,
            f.envelope.ciphertext@,
            recovery_aad_spec(f),
        ) == Some(payload_json(payload)),
    ensures
        open_recovery_outcome(f, passphrase) == Ok::<Seq<u8>, RecoveryError>(payload_json(payload)),
{
}

} // verus!
