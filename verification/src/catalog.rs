//! Encrypted file manifests and owner-signed, encrypted vault catalogs, each
//! bound by its associated data to the vault and entry it belongs to.
use vstd::prelude::*;
use crate::text::{utf8, push_str, str_equal, bytes_eq, push_bytes};
use crate::json::{json_text, json_int, json_opt_int, json_opt_text, json_byte_array,
    json_text_array, json_u32_array, json_join, dec, push_json_str, push_json_i64,
    push_json_opt_i64, push_json_opt_str, push_json_byte_array, push_json_str_array,
    push_json_u32_array, push_dec, push_json_key, lemma_join_push};
use crate::order::texts;
use crate::hashing::{cid_of, hasher_input, plaintext_hash, FileHasher};
use crate::legacy::opt_text;
use crate::crypto::{CryptoError, Envelope, SecretKey, encrypt, decrypt, decrypt_outcome,
    xchacha_open, blake3_derived, algorithm_name};
use crate::identity::{Identity, member_id_of, signature_outcome, verify_signature,
    member_id_for};
use crate::signing::{ed25519_public_key_of, ed25519_signature_of, ed25519_verifies,
    ed25519_key_decodes};

verus! {

/// The context of the key that encrypts manifests.
pub const MANIFEST_KEY_CONTEXT: &'static str = "arcane-commons-mesh manifest key v1";

/// The context of the key that encrypts catalogs.
pub const CATALOG_KEY_CONTEXT: &'static str = "arcane-commons-mesh catalog key v1";

/// Why a manifest or catalog was refused.
#[derive(Debug)]
pub enum CatalogError {
    Crypto(CryptoError),
    Encoding(serde_json::Error),
    Signature,
    Domain,
}

/// What one file version holds and how to reassemble it.
#[derive(Clone, Debug, PartialEq, Eq)]
pub struct FileManifest {
    pub manifest_version: u16,
    pub file_id: String,
    pub file_version_id: String,
    pub relative_path: String,
    pub file_name: String,
    pub mime_type: String,
    pub plaintext_size: u64,
    pub plaintext_hash: String,
    pub modified_at: i64,
    pub created_at: i64,
    pub file_key: [u8; 32],
    pub ordered_chunk_cids: Vec<String>,
    pub chunk_plaintext_lengths: Vec<u32>,
    pub padding_lengths: Vec<u32>,
}

/// One file version listed in a catalog.
#[derive(Clone, Debug, PartialEq, Eq)]
pub struct CatalogFileVersion {
    pub file_id: String,
    pub file_version_id: String,
    pub encrypted_manifest_cid: String,
    pub created_at: i64,
    pub deleted_at: Option<i64>,
    pub retention_until: Option<i64>,
}

/// The list of a vault's file versions at one catalog version.
#[derive(Clone, Debug, PartialEq, Eq)]
pub struct VaultCatalog {
    pub catalog_version: u64,
    pub vault_id: String,
    pub owner_member_id: String,
    pub previous_catalog_cid: Option<String>,
    pub created_at: i64,
    pub files: Vec<CatalogFileVersion>,
}

/// A catalog with its owner's key and signature.
#[derive(Clone, Debug, PartialEq, Eq)]
pub struct SignedVaultCatalog {
    pub catalog: VaultCatalog,
    pub owner_public_key: [u8; 32],
    pub owner_signature: Vec<u8>,
}

/// The view of an optional integer.
pub open spec fn opt_int(o: Option<i64>) -> Option<int> {
    match o {
        Some(v) => Some(v as int),
        None => None,
    }
}

/// The first members of a manifest's JSON: version and names.
#[verifier::opaque]
pub open spec fn manifest_head(m: &FileManifest) -> Seq<u8> {
    json_text("manifest_version"@) + seq![58u8] + dec(m.manifest_version as nat) + seq![44u8]
        + json_text("file_id"@) + seq![58u8] + json_text(m.file_id@) + seq![44u8] + json_text(
        "file_version_id"@,
    ) + seq![58u8] + json_text(m.file_version_id@) + seq![44u8] + json_text("relative_path"@)
        + seq![58u8] + json_text(m.relative_path@)
}

/// The middle members of a manifest's JSON: name, type, size, hash, times.
#[verifier::opaque]
pub open spec fn manifest_mid(m: &FileManifest) -> Seq<u8> {
    json_text("file_name"@) + seq![58u8] + json_text(m.file_name@) + seq![44u8] + json_text(
        "mime_type"@,
    ) + seq![58u8] + json_text(m.mime_type@) + seq![44u8] + json_text("plaintext_size"@) + seq![
        58u8,
    ] + dec(m.plaintext_size as nat) + seq![44u8] + json_text("plaintext_hash"@) + seq![58u8]
        + json_text(m.plaintext_hash@)
}

/// The last members of a manifest's JSON: times, key and chunk lists.
#[verifier::opaque]
pub open spec fn manifest_tail(m: &FileManifest) -> Seq<u8> {
    json_text("modified_at"@) + seq![58u8] + json_int(m.modified_at as int) + seq![44u8]
        + json_text("created_at"@) + seq![58u8] + json_int(m.created_at as int) + seq![44u8]
        + json_text("file_key"@) + seq![58u8] + json_byte_array(m.file_key@) + seq![44u8]
        + json_text("ordered_chunk_cids"@) + seq![58u8] + json_text_array(
        texts(m.ordered_chunk_cids@),
    ) + seq![44u8] + json_text("chunk_plaintext_lengths"@) + seq![58u8] + json_u32_array(
        m.chunk_plaintext_lengths@,
    ) + seq![44u8] + json_text("padding_lengths"@) + seq![58u8] + json_u32_array(
        m.padding_lengths@,
    )
}

/// A manifest as JSON, as `serde_json` writes it.
pub open spec fn manifest_json(m: &FileManifest) -> Seq<u8> {
    seq![123u8] + manifest_head(m) + seq![44u8] + manifest_mid(m) + seq![44u8] + manifest_tail(m)
        + seq![125u8]
}

/// The identifying members of a catalog entry's JSON.
#[verifier::opaque]
pub open spec fn file_version_head(f: CatalogFileVersion) -> Seq<u8> {
    json_text("file_id"@) + seq![58u8] + json_text(f.file_id@) + seq![44u8] + json_text(
        "file_version_id"@,
    ) + seq![58u8] + json_text(f.file_version_id@) + seq![44u8] + json_text(
        "encrypted_manifest_cid"@,
    ) + seq![58u8] + json_text(f.encrypted_manifest_cid@)
}

/// The time members of a catalog entry's JSON.
#[verifier::opaque]
pub open spec fn file_version_times(f: CatalogFileVersion) -> Seq<u8> {
    json_text("created_at"@) + seq![58u8] + json_int(f.created_at as int) + seq![44u8] + json_text(
        "deleted_at"@,
    ) + seq![58u8] + json_opt_int(opt_int(f.deleted_at)) + seq![44u8] + json_text(
        "retention_until"@,
    ) + seq![58u8] + json_opt_int(opt_int(f.retention_until))
}

/// A catalog entry as JSON.
#[verifier::opaque]
pub open spec fn file_version_json(f: CatalogFileVersion) -> Seq<u8> {
    seq![123u8] + file_version_head(f) + seq![44u8] + file_version_times(f) + seq![125u8]
}

/// The entries of a catalog as a JSON array.
pub open spec fn files_json(s: Seq<CatalogFileVersion>) -> Seq<u8> {
    seq![91u8] + json_join(s.map_values(|f: CatalogFileVersion| file_version_json(f))) + seq![93u8]
}

/// The members of a catalog's JSON before its entries.
#[verifier::opaque]
pub open spec fn catalog_head(c: &VaultCatalog) -> Seq<u8> {
    json_text("catalog_version"@) + seq![58u8] + dec(c.catalog_version as nat) + seq![44u8]
        + json_text("vault_id"@) + seq![58u8] + json_text(c.vault_id@) + seq![44u8] + json_text(
        "owner_member_id"@,
    ) + seq![58u8] + json_text(c.owner_member_id@) + seq![44u8] + json_text(
        "previous_catalog_cid"@,
    ) + seq![58u8] + json_opt_text(opt_text(c.previous_catalog_cid)) + seq![44u8] + json_text(
        "created_at"@,
    ) + seq![58u8] + json_int(c.created_at as int)
}

/// A catalog as JSON.
pub open spec fn catalog_json(c: &VaultCatalog) -> Seq<u8> {
    seq![123u8] + catalog_head(c) + seq![44u8] + json_text("files"@) + seq![58u8] + files_json(
        c.files@,
    ) + seq![125u8]
}

/// A signed catalog as JSON.
pub open spec fn signed_catalog_json(s: &SignedVaultCatalog) -> Seq<u8> {
    seq![123u8] + json_text("catalog"@) + seq![58u8] + catalog_json(&s.catalog) + seq![44u8]
        + json_text("owner_public_key"@) + seq![58u8] + json_byte_array(s.owner_public_key@)
        + seq![44u8] + json_text("owner_signature"@) + seq![58u8] + json_byte_array(
        s.owner_signature@,
    ) + seq![125u8]
}

/// The bytes the owner signs: a domain label and the catalog's JSON.
pub open spec fn catalog_signing_spec(c: &VaultCatalog) -> Seq<u8> {
    utf8("acm.catalog-signature.v1|"@) + catalog_json(c)
}

/// The associated data of a manifest.
pub open spec fn manifest_aad_spec(vault_id: Seq<char>, file_id: Seq<char>, file_version_id: Seq<char>) -> Seq<u8> {
    utf8("acm.manifest.v1|"@) + utf8(vault_id) + seq![124u8] + utf8(file_id) + seq![124u8] + utf8(
        file_version_id,
    )
}

/// The associated data of a catalog.
pub open spec fn catalog_aad_spec(vault_id: Seq<char>, version: u64) -> Seq<u8> {
    utf8("acm.catalog.v1|"@) + utf8(vault_id) + seq![124u8] + dec(version as nat)
}

/// Appends the first members of a manifest's JSON.
#[verifier::rlimit(100)]
fn push_manifest_head(out: &mut Vec<u8>, m: &FileManifest)
    ensures
        final(out)@ == old(out)@ + manifest_head(m),
{
    push_json_key(out, "manifest_version");
    push_dec(out, m.manifest_version as u64);
    out.push(44);
    push_json_key(out, "file_id");
    push_json_str(out, m.file_id.as_str());
    out.push(44);
    push_json_key(out, "file_version_id");
    push_json_str(out, m.file_version_id.as_str());
    out.push(44);
    push_json_key(out, "relative_path");
    push_json_str(out, m.relative_path.as_str());
    reveal(manifest_head);
    assert(out@ =~= old(out)@ + manifest_head(m));
}

/// Appends the middle members of a manifest's JSON.
#[verifier::rlimit(100)]
fn push_manifest_mid(out: &mut Vec<u8>, m: &FileManifest)
    ensures
        final(out)@ == old(out)@ + manifest_mid(m),
{
    push_json_key(out, "file_name");
    push_json_str(out, m.file_name.as_str());
    out.push(44);
    push_json_key(out, "mime_type");
    push_json_str(out, m.mime_type.as_str());
    out.push(44);
    push_json_key(out, "plaintext_size");
    push_dec(out, m.plaintext_size);
    out.push(44);
    push_json_key(out, "plaintext_hash");
    push_json_str(out, m.plaintext_hash.as_str());
    reveal(manifest_mid);
    assert(out@ =~= old(out)@ + manifest_mid(m));
}

/// Appends the last members of a manifest's JSON.
#[verifier::rlimit(100)]
fn push_manifest_tail(out: &mut Vec<u8>, m: &FileManifest)
    ensures
        final(out)@ == old(out)@ + manifest_tail(m),
{
    push_json_key(out, "modified_at");
    push_json_i64(out, m.modified_at);
    out.push(44);
    push_json_key(out, "created_at");
    push_json_i64(out, m.created_at);
    out.push(44);
    push_json_key(out, "file_key");
    push_json_byte_array(out, &m.file_key);
    out.push(44);
    push_json_key(out, "ordered_chunk_cids");
    push_json_str_array(out, &m.ordered_chunk_cids);
    out.push(44);
    push_json_key(out, "chunk_plaintext_lengths");
    push_json_u32_array(out, &m.chunk_plaintext_lengths);
    out.push(44);
    push_json_key(out, "padding_lengths");
    push_json_u32_array(out, &m.padding_lengths);
    reveal(manifest_tail);
    assert(out@ =~= old(out)@ + manifest_tail(m));
}

/// Appends a manifest as JSON.
pub fn push_manifest_json(out: &mut Vec<u8>, m: &FileManifest)
    ensures
        final(out)@ == old(out)@ + manifest_json(m),
{
    out.push(123);
    push_manifest_head(out, m);
    out.push(44);
    push_manifest_mid(out, m);
    out.push(44);
    push_manifest_tail(out, m);
    out.push(125);
    assert(out@ =~= old(out)@ + manifest_json(m));
}

/// Appends the identifying members of a catalog entry's JSON.
fn push_file_version_head(out: &mut Vec<u8>, f: &CatalogFileVersion)
    ensures
        final(out)@ == old(out)@ + file_version_head(*f),
{
    push_json_key(out, "file_id");
    push_json_str(out, f.file_id.as_str());
    out.push(44);
    push_json_key(out, "file_version_id");
    push_json_str(out, f.file_version_id.as_str());
    out.push(44);
    push_json_key(out, "encrypted_manifest_cid");
    push_json_str(out, f.encrypted_manifest_cid.as_str());
    reveal(file_version_head);
    assert(out@ =~= old(out)@ + file_version_head(*f));
}

/// Appends the time members of a catalog entry's JSON.
fn push_file_version_times(out: &mut Vec<u8>, f: &CatalogFileVersion)
    ensures
        final(out)@ == old(out)@ + file_version_times(*f),
{
    push_json_key(out, "created_at");
    push_json_i64(out, f.created_at);
    out.push(44);
    push_json_key(out, "deleted_at");
    push_json_opt_i64(out, f.deleted_at);
    out.push(44);
    push_json_key(out, "retention_until");
    push_json_opt_i64(out, f.retention_until);
    reveal(file_version_times);
    assert(out@ =~= old(out)@ + file_version_times(*f));
}

/// Appends a catalog entry as JSON.
fn push_file_version_json(out: &mut Vec<u8>, f: &CatalogFileVersion)
    ensures
        final(out)@ == old(out)@ + file_version_json(*f),
{
    out.push(123);
    push_file_version_head(out, f);
    out.push(44);
    push_file_version_times(out, f);
    out.push(125);
    reveal(file_version_json);
    assert(out@ =~= old(out)@ + file_version_json(*f));
}

/// Appends the members of a catalog's JSON before its entries.
#[verifier::rlimit(100)]
fn push_catalog_head(out: &mut Vec<u8>, c: &VaultCatalog)
    ensures
        final(out)@ == old(out)@ + catalog_head(c),
{
    push_json_key(out, "catalog_version");
    push_dec(out, c.catalog_version);
    out.push(44);
    push_json_key(out, "vault_id");
    push_json_str(out, c.vault_id.as_str());
    out.push(44);
    push_json_key(out, "owner_member_id");
    push_json_str(out, c.owner_member_id.as_str());
    out.push(44);
    push_json_key(out, "previous_catalog_cid");
    push_json_opt_str(out, &c.previous_catalog_cid);
    out.push(44);
    push_json_key(out, "created_at");
    push_json_i64(out, c.created_at);
    reveal(catalog_head);
    assert(out@ =~= old(out)@ + catalog_head(c));
}

/// Appends a catalog's entries as a JSON array.
fn push_files_json(out: &mut Vec<u8>, files: &Vec<CatalogFileVersion>)
    ensures
        final(out)@ == old(out)@ + files_json(files@),
{
    let ghost parts = files@.map_values(|f: CatalogFileVersion| file_version_json(f));
    out.push(91);
    let mut i: usize = 0;
    while i < files.len()
        invariant
            0 <= i <= files@.len(),
            parts == files@.map_values(|f: CatalogFileVersion| file_version_json(f)),
            out@ == old(out)@ + seq![91u8] + json_join(parts.take(i as int)),
        decreases files@.len() - i,
    {
        if i > 0 {
            out.push(44);
        }
        push_file_version_json(out, &files[i]);
        proof {
            lemma_join_push(parts.take(i as int), parts[i as int]);
            assert(parts.take(i as int).push(parts[i as int]) =~= parts.take(i + 1));
        }
        i = i + 1;
    }
    out.push(93);
    assert(parts.take(files@.len() as int) =~= parts);
    assert(out@ =~= old(out)@ + files_json(files@));
}

/// Appends a catalog as JSON.
pub fn push_catalog_json(out: &mut Vec<u8>, c: &VaultCatalog)
    ensures
        final(out)@ == old(out)@ + catalog_json(c),
{
    out.push(123);
    push_catalog_head(out, c);
    out.push(44);
    push_json_key(out, "files");
    push_files_json(out, &c.files);
    out.push(125);
    assert(out@ =~= old(out)@ + catalog_json(c));
}

/// Appends a signed catalog as JSON.
#[verifier::rlimit(100)]
pub fn push_signed_catalog_json(out: &mut Vec<u8>, s: &SignedVaultCatalog)
    ensures
        final(out)@ == old(out)@ + signed_catalog_json(s),
{
    out.push(123);
    push_json_key(out, "catalog");
    push_catalog_json(out, &s.catalog);
    out.push(44);
    push_json_key(out, "owner_public_key");
    push_json_byte_array(out, &s.owner_public_key);
    out.push(44);
    push_json_key(out, "owner_signature");
    push_json_byte_array(out, s.owner_signature.as_slice());
    out.push(125);
    assert(out@ =~= old(out)@ + signed_catalog_json(s));
}

/// The associated data of a manifest.
pub fn manifest_aad(vault_id: &str, file_id: &str, file_version_id: &str) -> (res: Vec<u8>)
    ensures
        res@ == manifest_aad_spec(vault_id@, file_id@, file_version_id@),
{
    let mut out: Vec<u8> = Vec::new();
    push_str(&mut out, "acm.manifest.v1|");
    push_str(&mut out, vault_id);
    out.push(124);
    push_str(&mut out, file_id);
    out.push(124);
    push_str(&mut out, file_version_id);
    assert(out@ =~= manifest_aad_spec(vault_id@, file_id@, file_version_id@));
    out
}

/// The associated data of a catalog.
pub fn catalog_aad(vault_id: &str, version: u64) -> (res: Vec<u8>)
    ensures
        res@ == catalog_aad_spec(vault_id@, version),
{
    let mut out: Vec<u8> = Vec::new();
    push_str(&mut out, "acm.catalog.v1|");
    push_str(&mut out, vault_id);
    out.push(124);
    push_dec(&mut out, version);
    assert(out@ =~= catalog_aad_spec(vault_id@, version));
    out
}

/// The bytes the owner signs.
pub fn catalog_signing_bytes(catalog: &VaultCatalog) -> (res: Vec<u8>)
    ensures
        res@ == catalog_signing_spec(catalog),
{
    let mut out: Vec<u8> = Vec::new();
    push_str(&mut out, "acm.catalog-signature.v1|");
    push_catalog_json(&mut out, catalog);
    assert(out@ =~= catalog_signing_spec(catalog));
    out
}

/// Chunk lists that agree in length.
pub open spec fn manifest_lists_agree(m: &FileManifest) -> bool {
    m.ordered_chunk_cids@.len() == m.chunk_plaintext_lengths@.len()
        && m.ordered_chunk_cids@.len() == m.padding_lengths@.len()
}

/// The manifest key of a vault master key.
pub open spec fn manifest_key(master: Seq<u8>) -> Seq<u8> {
    blake3_derived(MANIFEST_KEY_CONTEXT@, master)
}

/// The catalog key of a vault master key.
pub open spec fn catalog_key(master: Seq<u8>) -> Seq<u8> {
    blake3_derived(CATALOG_KEY_CONTEXT@, master)
}

/// Encrypts a manifest of version 1 whose chunk lists agree, under the
/// manifest key and bound to its vault, file and version.
pub fn encrypt_manifest(vault_master_key: &SecretKey, vault_id: &str, manifest: &FileManifest) -> (res:
    Result<Envelope, CatalogError>)
    ensures
        (manifest.manifest_version != 1 || !manifest_lists_agree(manifest)) ==> res matches Err(
            CatalogError::Domain,
        ),
        (manifest.manifest_version == 1 && manifest_lists_agree(manifest)) ==> (res is Ok <==> manifest_json(
            manifest,
        ).len() / 64 < u32::MAX),
        res matches Err(CatalogError::Crypto(e)) ==> e == CryptoError::Encrypt,
        res matches Ok(e) ==> {
            &&& e.version == 1
            &&& e.algorithm@ == algorithm_name()
            &&& xchacha_open(
                manifest_key(vault_master_key.0@),
                e.nonce@,
                e.ciphertext@,
                manifest_aad_spec(vault_id@, manifest.file_id@, manifest.file_version_id@),
            ) == Some(manifest_json(manifest))
        },
{
    if manifest.manifest_version != 1 || manifest.ordered_chunk_cids.len()
        != manifest.chunk_plaintext_lengths.len() || manifest.ordered_chunk_cids.len()
        != manifest.padding_lengths.len() {
        return Err(CatalogError::Domain);
    }
    let key = vault_master_key.derive(MANIFEST_KEY_CONTEXT);
    let mut plaintext: Vec<u8> = Vec::new();
    push_manifest_json(&mut plaintext, manifest);
    assert(plaintext@ =~= manifest_json(manifest));
    let aad = manifest_aad(vault_id, manifest.file_id.as_str(), manifest.file_version_id.as_str());
    match encrypt(&key, &plaintext, &aad) {
        Err(e) => Err(CatalogError::Crypto(e)),
        Ok(e) => Ok(e),
    }
}

/// Decrypts a manifest envelope for a vault, file and version: the JSON of
/// the manifest, which `check_manifest` then checks once it is parsed.
pub fn open_manifest(
    vault_master_key: &SecretKey,
    vault_id: &str,
    file_id: &str,
    file_version_id: &str,
    envelope: &Envelope,
) -> (res: Result<Vec<u8>, CatalogError>)
    ensures
        match decrypt_outcome(
            manifest_key(vault_master_key.0@),
            envelope,
            manifest_aad_spec(vault_id@, file_id@, file_version_id@),
        ) {
            Ok(p) => res matches Ok(q) && q@ == p,
            Err(e) => res matches Err(CatalogError::Crypto(f)) && f == e,
        },
{
    let key = vault_master_key.derive(MANIFEST_KEY_CONTEXT);
    let aad = manifest_aad(vault_id, file_id, file_version_id);
    match decrypt(&key, envelope, &aad) {
        Err(e) => Err(CatalogError::Crypto(e)),
        Ok(p) => Ok(p),
    }
}

/// Checks a decrypted manifest: version 1, the expected file and version,
/// and chunk lists that agree.
pub fn check_manifest(manifest: &FileManifest, file_id: &str, file_version_id: &str) -> (res: Result<
    (),
    CatalogError,
>)
    ensures
        res is Ok <==> manifest.manifest_version == 1 && manifest.file_id@ == file_id@
            && manifest.file_version_id@ == file_version_id@ && manifest_lists_agree(manifest),
        res is Err ==> res matches Err(CatalogError::Domain),
{
    if manifest.manifest_version != 1 || !str_equal(manifest.file_id.as_str(), file_id)
        || !str_equal(manifest.file_version_id.as_str(), file_version_id)
        || manifest.ordered_chunk_cids.len() != manifest.chunk_plaintext_lengths.len()
        || manifest.ordered_chunk_cids.len() != manifest.padding_lengths.len() {
        return Err(CatalogError::Domain);
    }
    Ok(())
}

/// Signs a catalog as its owner and encrypts it under the catalog key, bound
/// to its vault and version.
pub fn sign_and_encrypt_catalog(vault_master_key: &SecretKey, owner: &Identity, catalog: VaultCatalog) -> (res:
    Result<Envelope, CatalogError>)
    ensures
        (catalog.catalog_version == 0 || catalog.owner_member_id@ != member_id_of(
            ed25519_public_key_of(owner.seed()),
        )) ==> res matches Err(CatalogError::Domain),
        (catalog.catalog_version != 0 && catalog.owner_member_id@ == member_id_of(
            ed25519_public_key_of(owner.seed()),
        )) ==> !(res matches Err(CatalogError::Domain)),
        res matches Err(CatalogError::Crypto(e)) ==> e == CryptoError::Encrypt,
        res matches Ok(e) ==> {
            &&& e.version == 1
            &&& e.algorithm@ == algorithm_name()
            &&& exists|signed: SignedVaultCatalog|
                {
                    &&& signed.catalog == catalog
                    &&& signed.owner_public_key@ == ed25519_public_key_of(owner.seed())
                    &&& signed.owner_signature@ == ed25519_signature_of(
                        owner.seed(),
                        catalog_signing_spec(&catalog),
                    )
                    &&& xchacha_open(
                        catalog_key(vault_master_key.0@),
                        e.nonce@,
                        e.ciphertext@,
                        catalog_aad_spec(catalog.vault_id@, catalog.catalog_version),
                    ) == Some(#[trigger] signed_catalog_json(&signed))
                }
        },
{
    let owner_id = owner.member_id();
    if catalog.catalog_version == 0 || !str_equal(catalog.owner_member_id.as_str(), owner_id.as_str()) {
        return Err(CatalogError::Domain);
    }
    let canonical = catalog_signing_bytes(&catalog);
    let signature = owner.sign(&canonical);
    let mut sig: Vec<u8> = Vec::new();
    push_bytes(&mut sig, &signature);
    let signed = SignedVaultCatalog {
        catalog,
        owner_public_key: owner.public_key(),
        owner_signature: sig,
    };
    let key = vault_master_key.derive(CATALOG_KEY_CONTEXT);
    let mut plaintext: Vec<u8> = Vec::new();
    push_signed_catalog_json(&mut plaintext, &signed);
    assert(plaintext@ =~= signed_catalog_json(&signed));
    let aad = catalog_aad(signed.catalog.vault_id.as_str(), signed.catalog.catalog_version);
    match encrypt(&key, &plaintext, &aad) {
        Err(e) => Err(CatalogError::Crypto(e)),
        Ok(e) => Ok(e),
    }
}

/// Decrypts a catalog envelope for a vault and version: the JSON of the
/// signed catalog, which `verify_signed_catalog` then checks once it is
/// parsed.
pub fn open_catalog(vault_master_key: &SecretKey, vault_id: &str, catalog_version: u64, envelope: &Envelope) -> (res:
    Result<Vec<u8>, CatalogError>)
    ensures
        match decrypt_outcome(
            catalog_key(vault_master_key.0@),
            envelope,
            catalog_aad_spec(vault_id@, catalog_version),
        ) {
            Ok(p) => res matches Ok(q) && q@ == p,
            Err(e) => res matches Err(CatalogError::Crypto(f)) && f == e,
        },
{
    let key = vault_master_key.derive(CATALOG_KEY_CONTEXT);
    let aad = catalog_aad(vault_id, catalog_version);
    match decrypt(&key, envelope, &aad) {
        Err(e) => Err(CatalogError::Crypto(e)),
        Ok(p) => Ok(p),
    }
}

/// What `verify_signed_catalog` answers.
pub open spec fn signed_catalog_outcome(
    s: &SignedVaultCatalog,
    vault_id: Seq<char>,
    version: u64,
    owner: Seq<u8>,
) -> Result<(), CatalogError> {
    if s.catalog.catalog_version != version || s.catalog.vault_id@ != vault_id
        || s.owner_public_key@ != owner || s.catalog.owner_member_id@ != member_id_of(owner) {
        Err(CatalogError::Domain)
    } else if signature_outcome(owner, catalog_signing_spec(&s.catalog), s.owner_signature@) is Err {
        Err(CatalogError::Signature)
    } else {
        Ok(())
    }
}

/// Checks a decrypted signed catalog: the expected version, vault and owner
/// (key and member id), and the owner's signature.
pub fn verify_signed_catalog(
    signed: &SignedVaultCatalog,
    vault_id: &str,
    catalog_version: u64,
    expected_owner_public_key: &[u8; 32],
) -> (res: Result<(), CatalogError>)
    ensures
        match signed_catalog_outcome(signed, vault_id@, catalog_version, expected_owner_public_key@) {
            Ok(_) => res is Ok,
            Err(CatalogError::Domain) => res matches Err(CatalogError::Domain),
            Err(_) => res matches Err(CatalogError::Signature),
        },
{
    let expected_id = member_id_for(expected_owner_public_key);
    if signed.catalog.catalog_version != catalog_version || !str_equal(
        signed.catalog.vault_id.as_str(),
        vault_id,
    ) || !bytes_eq(&signed.owner_public_key, expected_owner_public_key) || !str_equal(
        signed.catalog.owner_member_id.as_str(),
        expected_id.as_str(),
    ) {
        return Err(CatalogError::Domain);
    }
    let canonical = catalog_signing_bytes(&signed.catalog);
    match verify_signature(expected_owner_public_key, &canonical, signed.owner_signature.as_slice()) {
        Err(_) => Err(CatalogError::Signature),
        Ok(_) => Ok(()),
    }
}

/// A catalog its owner signed verifies against that owner, for its own vault
/// and version.
pub proof fn law_signed_catalog_verifies(s: &SignedVaultCatalog, seed: Seq<u8>)
    requires
        s.owner_public_key@ == ed25519_public_key_of(seed),
        s.catalog.owner_member_id@ == member_id_of(ed25519_public_key_of(seed)),
        ed25519_key_decodes(s.owner_public_key@),
        s.owner_signature@.len() == 64,
        ed25519_verifies(s.owner_public_key@, catalog_signing_spec(&s.catalog), s.owner_signature@),
    ensures
        signed_catalog_outcome(
            s,
            s.catalog.vault_id@,
            s.catalog.catalog_version,
            ed25519_public_key_of(seed),
        ) is Ok,
{
}

/// Whether everything fed to a hasher is the plaintext a manifest names:
/// its content identifier equals the manifest's plaintext hash.
pub fn restored_matches(h: &FileHasher, m: &FileManifest) -> (res: bool)
    ensures
        res == (cid_of(hasher_input(*h)) == m.plaintext_hash@),
{
    let restored = plaintext_hash(h);
    str_equal(restored.as_str(), m.plaintext_hash.as_str())
}

} // verus!
