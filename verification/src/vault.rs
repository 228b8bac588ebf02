//! File contents as a sequence of encrypted chunks, each bound to its vault,
//! file version, position and length, and named by the content identifier
//! of its envelope.
use vstd::prelude::*;
use crate::text::{utf8, push_str, str_equal};
use crate::json::{dec, push_dec};
use crate::hashing::{cid, cid_of, hasher_input, FileHasher};
use crate::crypto::{CryptoError, Envelope, SecretKey, encrypt, decrypt, decrypt_outcome,
    envelope_json, push_envelope_json, xchacha_open};
use crate::text::push_bytes;
use crate::DEFAULT_CHUNK_SIZE;

verus! {

/// Why a chunk was refused.
#[derive(Debug)]
pub enum VaultError {
    Io(std::io::Error),
    Crypto(CryptoError),
    Integrity,
}

/// One encrypted chunk of a file.
#[derive(Clone, Debug)]
pub struct EncryptedChunk {
    pub index: u64,
    pub plaintext_length: u32,
    pub cid: String,
    pub envelope: Envelope,
}

/// The associated data that binds a chunk to its place.
pub open spec fn chunk_aad_spec(vault_id: Seq<char>, file_version_id: Seq<char>, index: u64, length: u32) -> Seq<u8> {
    utf8("acm.chunk.v1|"@) + utf8(vault_id) + seq![124u8] + utf8(file_version_id) + seq![124u8]
        + dec(index as nat) + seq![124u8] + dec(length as nat)
}

/// The associated data that binds a chunk to its place.
pub fn chunk_aad(vault_id: &str, file_version_id: &str, index: u64, length: u32) -> (res: Vec<u8>)
    ensures
        res@ == chunk_aad_spec(vault_id@, file_version_id@, index, length),
{
    let mut out: Vec<u8> = Vec::new();
    push_str(&mut out, "acm.chunk.v1|");
    push_str(&mut out, vault_id);
    out.push(124);
    push_str(&mut out, file_version_id);
    out.push(124);
    push_dec(&mut out, index);
    out.push(124);
    push_dec(&mut out, length as u64);
    assert(out@ =~= chunk_aad_spec(vault_id@, file_version_id@, index, length));
    out
}

/// The content identifier of an envelope: of its JSON encoding.
pub fn envelope_cid(envelope: &Envelope) -> (res: String)
    ensures
        res@ == cid_of(envelope_json(envelope)),
{
    let mut encoded: Vec<u8> = Vec::new();
    push_envelope_json(&mut encoded, envelope);
    assert(encoded@ =~= envelope_json(envelope));
    cid(&encoded)
}

/// Encrypts the chunk at `index` of a file version.
pub fn seal_chunk(
    key: &SecretKey,
    plaintext: &[u8],
    vault_id: &str,
    file_version_id: &str,
    index: u64,
) -> (res: Result<EncryptedChunk, VaultError>)
    ensures
        plaintext@.len() > u32::MAX ==> res matches Err(VaultError::Integrity),
        plaintext@.len() <= u32::MAX ==> (res is Ok <==> plaintext@.len() / 64 < u32::MAX),
        res is Err && plaintext@.len() <= u32::MAX ==> res matches Err(
            VaultError::Crypto(CryptoError::Encrypt),
        ),
        res matches Ok(c) ==> {
            &&& c.index == index
            &&& c.plaintext_length == plaintext@.len()
            &&& c.cid@ == cid_of(envelope_json(&c.envelope))
            &&& c.envelope.version == 1
            &&& c.envelope.algorithm@ == crate::crypto::algorithm_name()
            &&& xchacha_open(
                key.0@,
                c.envelope.nonce@,
                c.envelope.ciphertext@,
                chunk_aad_spec(vault_id@, file_version_id@, index, c.plaintext_length),
            ) == Some(plaintext@)
        },
{
    if plaintext.len() > 0xffff_ffff {
        return Err(VaultError::Integrity);
    }
    let plaintext_length = plaintext.len() as u32;
    let aad = chunk_aad(vault_id, file_version_id, index, plaintext_length);
    let envelope = match encrypt(key, plaintext, &aad) {
        Err(e) => {
            return Err(VaultError::Crypto(e));
        },
        Ok(e) => e,
    };
    let name = envelope_cid(&envelope);
    Ok(EncryptedChunk { index, plaintext_length, cid: name, envelope })
}

/// What `open_chunk` answers.
pub open spec fn open_chunk_outcome(
    c: &EncryptedChunk,
    expected_index: int,
    key: Seq<u8>,
    vault_id: Seq<char>,
    file_version_id: Seq<char>,
) -> Result<Seq<u8>, VaultError> {
    if c.index != expected_index {
        Err(VaultError::Integrity)
    } else if cid_of(envelope_json(&c.envelope)) != c.cid@ {
        Err(VaultError::Integrity)
    } else {
        match decrypt_outcome(
            key,
            &c.envelope,
            chunk_aad_spec(vault_id, file_version_id, c.index, c.plaintext_length),
        ) {
            Err(e) => Err(VaultError::Crypto(e)),
            Ok(p) => if p.len() != c.plaintext_length {
                Err(VaultError::Integrity)
            } else {
                Ok(p)
            },
        }
    }
}

/// Decrypts the chunk that must stand at `expected_index`: its position,
/// content identifier, authentication and length are checked.
pub fn open_chunk(
    chunk: &EncryptedChunk,
    expected_index: usize,
    key: &SecretKey,
    vault_id: &str,
    file_version_id: &str,
) -> (res: Result<Vec<u8>, VaultError>)
    ensures
        match open_chunk_outcome(chunk, expected_index as int, key.0@, vault_id@, file_version_id@) {
            Ok(p) => res matches Ok(q) && q@ == p,
            Err(VaultError::Integrity) => res matches Err(VaultError::Integrity),
            Err(VaultError::Crypto(e)) => res matches Err(VaultError::Crypto(f)) && f == e,
            Err(VaultError::Io(_)) => false,
        },
{
    if chunk.index as u128 != expected_index as u128 {
        return Err(VaultError::Integrity);
    }
    let name = envelope_cid(&chunk.envelope);
    if !str_equal(name.as_str(), chunk.cid.as_str()) {
        return Err(VaultError::Integrity);
    }
    let aad = chunk_aad(vault_id, file_version_id, chunk.index, chunk.plaintext_length);
    let plaintext = match decrypt(key, &chunk.envelope, &aad) {
        Err(e) => {
            return Err(VaultError::Crypto(e));
        },
        Ok(p) => p,
    };
    if plaintext.len() as u128 != chunk.plaintext_length as u128 {
        return Err(VaultError::Integrity);
    }
    Ok(plaintext)
}

/// A sealed chunk opens, at its own position and with the same key, vault
/// and file version, to the plaintext it was sealed from.
pub proof fn law_open_undoes_seal(
    c: &EncryptedChunk,
    key: Seq<u8>,
    vault_id: Seq<char>,
    file_version_id: Seq<char>,
    plaintext: Seq<u8>,
)
    requires
        c.plaintext_length == plaintext.len(),
        c.cid@ == cid_of(envelope_json(&c.envelope)),
        c.envelope.version == 1,
        c.envelope.algorithm@ == crate::crypto::algorithm_name(),
        xchacha_open(
            key,
            c.envelope.nonce@,
            c.envelope.ciphertext@,
            chunk_aad_spec(vault_id, file_version_id, c.index, c.plaintext_length),
        ) == Some(plaintext),
    ensures
        open_chunk_outcome(c, c.index as int, key, vault_id, file_version_id) == Ok::<
            Seq<u8>,
            VaultError,
        >(plaintext),
{
}

/// `DEFAULT_CHUNK_SIZE` as a number in specifications.
#[verifier::inline]
pub open spec fn chunk_span() -> int {
    4194304
}

/// The `i`-th piece a plaintext is cut into: `DEFAULT_CHUNK_SIZE` bytes
/// from `i` chunks in, or what is left.
pub open spec fn piece(p: Seq<u8>, i: int) -> Seq<u8> {
    let start = i * chunk_span();
    let end = if start + chunk_span() < p.len() {
        start + chunk_span()
    } else {
        p.len() as int
    };
    p.subrange(start, end)
}

/// A chunk sealed at position `i` from `plaintext`: its index, length and
/// content identifier, and an envelope that opens to the plaintext under
/// the chunk's associated data.
pub open spec fn sealed_as(
    c: EncryptedChunk,
    i: int,
    plaintext: Seq<u8>,
    key: Seq<u8>,
    vault_id: Seq<char>,
    file_version_id: Seq<char>,
) -> bool {
    &&& c.index == i
    &&& c.plaintext_length == plaintext.len()
    &&& c.cid@ == cid_of(envelope_json(&c.envelope))
    &&& c.envelope.version == 1
    &&& c.envelope.algorithm@ == crate::crypto::algorithm_name()
    &&& xchacha_open(
        key,
        c.envelope.nonce@,
        c.envelope.ciphertext@,
        chunk_aad_spec(vault_id, file_version_id, c.index, c.plaintext_length),
    ) == Some(plaintext)
}

/// The chunk at position `i` of a sealing of `p`: the piece there is not
/// empty, and the chunk seals it.
pub open spec fn seals_piece(
    c: EncryptedChunk,
    i: int,
    p: Seq<u8>,
    key: Seq<u8>,
    vault_id: Seq<char>,
    file_version_id: Seq<char>,
) -> bool {
    i * chunk_span() < p.len() && sealed_as(c, i, piece(p, i), key, vault_id, file_version_id)
}

/// Chunks that seal a whole plaintext: one per non-empty piece, in order,
/// and enough of them to cover it (none for an empty plaintext).
pub open spec fn seals(
    cs: Seq<EncryptedChunk>,
    p: Seq<u8>,
    key: Seq<u8>,
    vault_id: Seq<char>,
    file_version_id: Seq<char>,
) -> bool {
    &&& cs.len() * chunk_span() >= p.len()
    &&& forall|i: int|
        0 <= i < cs.len() ==> #[trigger] seals_piece(cs[i], i, p, key, vault_id, file_version_id)
}

/// Encrypts a whole plaintext as chunks of `DEFAULT_CHUNK_SIZE` bytes (the
/// last one shorter), numbered from zero.
pub fn encrypt_stream(plaintext: &[u8], key: &SecretKey, vault_id: &str, file_version_id: &str) -> (res:
    Result<Vec<EncryptedChunk>, VaultError>)
    ensures
        res matches Ok(cs) && seals(cs@, plaintext@, key.0@, vault_id@, file_version_id@),
{
    assert(DEFAULT_CHUNK_SIZE == chunk_span());
    let len = plaintext.len();
    let mut chunks: Vec<EncryptedChunk> = Vec::new();
    let mut offset: usize = 0;
    while offset < len
        invariant
            len == plaintext@.len(),
            offset <= len,
            offset == (if chunks@.len() * chunk_span() < len {
                chunks@.len() * chunk_span()
            } else {
                len as int
            }),
            forall|i: int|
                0 <= i < chunks@.len() ==> #[trigger] seals_piece(
                    chunks@[i],
                    i,
                    plaintext@,
                    key.0@,
                    vault_id@,
                    file_version_id@,
                ),
        decreases len - offset,
    {
        let end = if len - offset > DEFAULT_CHUNK_SIZE {
            offset + DEFAULT_CHUNK_SIZE
        } else {
            len
        };
        let part = vstd::slice::slice_subrange(plaintext, offset, end);
        let n = chunks.len();
        assert(part@ == piece(plaintext@, n as int));
        assert(part@.len() / 64 < u32::MAX) by {
            assert(part@.len() <= chunk_span());
        }
        let chunk = match seal_chunk(key, part, vault_id, file_version_id, n as u64) {
            Ok(c) => c,
            Err(e) => {
                return Err(e);
            },
        };
        let ghost before = chunks@;
        chunks.push(chunk);
        offset = end;
        assert forall|i: int| 0 <= i < chunks@.len() implies #[trigger] seals_piece(
            chunks@[i],
            i,
            plaintext@,
            key.0@,
            vault_id@,
            file_version_id@,
        ) by {
            if i < n {
                assert(chunks@[i] == before[i]);
            }
        }
    }
    assert(chunks@.len() * chunk_span() >= len);
    Ok(chunks)
}

/// What `decrypt_stream` answers for the first `n` chunks: the first
/// refusal, or the pieces joined in order.
pub open spec fn stream_outcome(
    cs: Seq<EncryptedChunk>,
    key: Seq<u8>,
    vault_id: Seq<char>,
    file_version_id: Seq<char>,
    n: int,
) -> Result<Seq<u8>, VaultError>
    decreases n,
{
    if n <= 0 {
        Ok(Seq::empty())
    } else {
        match stream_outcome(cs, key, vault_id, file_version_id, n - 1) {
            Err(e) => Err(e),
            Ok(acc) => match open_chunk_outcome(&cs[n - 1], n - 1, key, vault_id, file_version_id) {
                Err(e) => Err(e),
                Ok(p) => Ok(acc + p),
            },
        }
    }
}

/// Once a prefix of the chunks is refused, every longer prefix is refused
/// the same way.
proof fn lemma_stream_err_stays(
    cs: Seq<EncryptedChunk>,
    key: Seq<u8>,
    vault_id: Seq<char>,
    file_version_id: Seq<char>,
    n: int,
    m: int,
)
    requires
        0 <= n <= m,
        stream_outcome(cs, key, vault_id, file_version_id, n) is Err,
    ensures
        stream_outcome(cs, key, vault_id, file_version_id, m) == stream_outcome(
            cs,
            key,
            vault_id,
            file_version_id,
            n,
        ),
    decreases m - n,
{
    if m > n {
        lemma_stream_err_stays(cs, key, vault_id, file_version_id, n, m - 1);
    }
}

/// Decrypts chunks in order, each checked at its position: the plaintext
/// they seal.
pub fn decrypt_stream(chunks: &[EncryptedChunk], key: &SecretKey, vault_id: &str, file_version_id: &str) -> (res:
    Result<Vec<u8>, VaultError>)
    ensures
        match stream_outcome(chunks@, key.0@, vault_id@, file_version_id@, chunks@.len() as int) {
            Ok(p) => res matches Ok(q) && q@ == p,
            Err(VaultError::Integrity) => res matches Err(VaultError::Integrity),
            Err(VaultError::Crypto(e)) => res matches Err(VaultError::Crypto(f)) && f == e,
            Err(VaultError::Io(_)) => false,
        },
{
    let mut out: Vec<u8> = Vec::new();
    let mut i: usize = 0;
    while i < chunks.len()
        invariant
            0 <= i <= chunks@.len(),
            stream_outcome(chunks@, key.0@, vault_id@, file_version_id@, i as int) == Ok::<
                Seq<u8>,
                VaultError,
            >(out@),
        decreases chunks@.len() - i,
    {
        let part = match open_chunk(&chunks[i], i, key, vault_id, file_version_id) {
            Ok(p) => p,
            Err(e) => {
                proof {
                    lemma_stream_err_stays(
                        chunks@,
                        key.0@,
                        vault_id@,
                        file_version_id@,
                        i as int + 1,
                        chunks@.len() as int,
                    );
                }
                return Err(e);
            },
        };
        push_bytes(&mut out, &part);
        i = i + 1;
    }
    Ok(out)
}

/// The first `n` chunks of a sealing decrypt to the plaintext up to where
/// their pieces end.
proof fn lemma_stream_prefix(
    cs: Seq<EncryptedChunk>,
    p: Seq<u8>,
    key: Seq<u8>,
    vault_id: Seq<char>,
    file_version_id: Seq<char>,
    n: int,
)
    requires
        seals(cs, p, key, vault_id, file_version_id),
        0 <= n <= cs.len(),
    ensures
        stream_outcome(cs, key, vault_id, file_version_id, n) == Ok::<Seq<u8>, VaultError>(
            p.take(if n * chunk_span() < p.len() { n * chunk_span() } else { p.len() as int }),
        ),
    decreases n,
{
    if n == 0 {
        assert(p.take(0) =~= Seq::<u8>::empty());
    } else {
        lemma_stream_prefix(cs, p, key, vault_id, file_version_id, n - 1);
        let c = cs[n - 1];
        assert(seals_piece(c, n - 1, p, key, vault_id, file_version_id));
        law_open_undoes_seal(&c, key, vault_id, file_version_id, piece(p, n - 1));
        let start = (n - 1) * chunk_span();
        let end = if n * chunk_span() < p.len() { n * chunk_span() } else { p.len() as int };
        assert(p.take(start) + piece(p, n - 1) =~= p.take(end));
    }
}

/// Chunks that seal a plaintext decrypt, in order and under the same key,
/// vault and file version, to that plaintext.
pub proof fn law_stream_round_trip(
    cs: Seq<EncryptedChunk>,
    p: Seq<u8>,
    key: Seq<u8>,
    vault_id: Seq<char>,
    file_version_id: Seq<char>,
)
    requires
        seals(cs, p, key, vault_id, file_version_id),
    ensures
        stream_outcome(cs, key, vault_id, file_version_id, cs.len() as int) == Ok::<
            Seq<u8>,
            VaultError,
        >(p),
{
    lemma_stream_prefix(cs, p, key, vault_id, file_version_id, cs.len() as int);
    assert(p.take(p.len() as int) =~= p);
}

/// Seals the chunk at `index` of a file and feeds its plaintext to the
/// hasher of the whole file, so that the file's hash covers exactly what was
/// sealed.
pub fn seal_chunk_digested(
    hasher: &mut FileHasher,
    key: &SecretKey,
    plaintext: &[u8],
    vault_id: &str,
    file_version_id: &str,
    index: u64,
) -> (res: Result<EncryptedChunk, VaultError>)
    ensures
        hasher_input(*final(hasher)) == hasher_input(*old(hasher)) + plaintext@,
        plaintext@.len() > u32::MAX ==> res matches Err(VaultError::Integrity),
        plaintext@.len() <= u32::MAX ==> (res is Ok <==> plaintext@.len() / 64 < u32::MAX),
        res is Err && plaintext@.len() <= u32::MAX ==> res matches Err(
            VaultError::Crypto(CryptoError::Encrypt),
        ),
        res matches Ok(c) ==> sealed_as(c, index as int, plaintext@, key.0@, vault_id@, file_version_id@),
{
    hasher.update(plaintext);
    seal_chunk(key, plaintext, vault_id, file_version_id, index)
}

/// Opens the chunk that must stand at `expected_index` and feeds its
/// plaintext to the hasher of the restored file; a refused chunk feeds
/// nothing.
pub fn open_chunk_digested(
    hasher: &mut FileHasher,
    chunk: &EncryptedChunk,
    expected_index: usize,
    key: &SecretKey,
    vault_id: &str,
    file_version_id: &str,
) -> (res: Result<Vec<u8>, VaultError>)
    ensures
        match open_chunk_outcome(chunk, expected_index as int, key.0@, vault_id@, file_version_id@) {
            Ok(p) => res matches Ok(q) && q@ == p && hasher_input(*final(hasher)) == hasher_input(
                *old(hasher),
            ) + p,
            Err(VaultError::Integrity) => res matches Err(VaultError::Integrity) && *final(hasher)
                == *old(hasher),
            Err(VaultError::Crypto(e)) => res matches Err(VaultError::Crypto(f)) && f == e
                && *final(hasher) == *old(hasher),
            Err(VaultError::Io(_)) => false,
        },
{
    let plaintext = open_chunk(chunk, expected_index, key, vault_id, file_version_id)?;
    hasher.update(&plaintext);
    Ok(plaintext)
}

} // verus!
