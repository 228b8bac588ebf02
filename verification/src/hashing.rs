//! BLAKE3 hashing, through the `blake3` crate.
use vstd::prelude::*;
use crate::text::{hex, hex_chars};

verus! {

/// The 32-byte BLAKE3 digest of `data`, as computed by `blake3::hash`.
pub uninterp spec fn blake3_digest(data: Seq<u8>) -> Seq<u8>;

/// `blake3::hash`: the 32-byte BLAKE3 digest of `data`.
#[verifier::external_body]
pub(crate) fn blake3_hash(data: &[u8]) -> (res: [u8; 32])
    ensures
        res@ == blake3_digest(data@),
{
    *blake3::hash(data).as_bytes()
}

/// An incremental BLAKE3 hash of a file's bytes. It holds a plain
/// `blake3::Hasher` (not keyed, not deriving a key, at offset zero) in a
/// private field, so `FileHasher::new` is the only way to make one.
#[verifier::external_body]
pub struct FileHasher {
    inner: blake3::Hasher,
}

/// The bytes fed to a file hasher so far.
pub uninterp spec fn hasher_input(h: FileHasher) -> Seq<u8>;

impl FileHasher {
    /// `blake3::Hasher::new`: a hasher that has been fed nothing.
    #[verifier::external_body]
    pub fn new() -> (h: Self)
        ensures
            hasher_input(h) == Seq::<u8>::empty(),
    {
        FileHasher { inner: blake3::Hasher::new() }
    }

    /// `blake3::Hasher::update`: feeds more bytes after those already fed.
    #[verifier::external_body]
    pub fn update(&mut self, bytes: &[u8])
        ensures
            hasher_input(*final(self)) == hasher_input(*old(self)) + bytes@,
    {
        self.inner.update(bytes);
    }

    /// `blake3::Hasher::finalize` of a plain hasher: the BLAKE3 digest of
    /// everything fed, the same as `blake3::hash` of those bytes at once.
    #[verifier::external_body]
    pub fn finish(&self) -> (res: [u8; 32])
        ensures
            res@ == blake3_digest(hasher_input(*self)),
    {
        *self.inner.finalize().as_bytes()
    }
}

/// The content identifier of everything fed to a hasher.
pub fn plaintext_hash(h: &FileHasher) -> (res: String)
    ensures
        res@ == cid_of(hasher_input(*h)),
{
    let digest = h.finish();
    hex(&digest)
}

/// The content identifier of bytes: lowercase hex of their BLAKE3 digest.
pub open spec fn cid_of(data: Seq<u8>) -> Seq<char> {
    hex_chars(blake3_digest(data))
}

/// Content identifier of `bytes`.
pub fn cid(bytes: &[u8]) -> (res: String)
    ensures
        res@ == cid_of(bytes@),
{
    let digest = blake3_hash(bytes);
    hex(&digest)
}

/// Pads a level of odd length by repeating its last node.
pub open spec fn merkle_padded(level: Seq<Seq<u8>>) -> Seq<Seq<u8>> {
    if level.len() % 2 == 1 {
        level.push(level.last())
    } else {
        level
    }
}

/// The next level of a Merkle tree: each pair of nodes hashed together.
pub open spec fn merkle_next(level: Seq<Seq<u8>>) -> Seq<Seq<u8>> {
    let padded = merkle_padded(level);
    Seq::new(padded.len() / 2, |i: int| blake3_digest(padded[2 * i] + padded[2 * i + 1]))
}

/// The root of a Merkle tree over the given leaves.
pub open spec fn merkle_fold(level: Seq<Seq<u8>>) -> Seq<u8>
    decreases level.len(),
{
    if level.len() <= 1 {
        level[0]
    } else {
        merkle_fold(merkle_next(level))
    }
}

/// Every node of a level is hashed into the next: the next level has half
/// as many nodes, rounded up, and node `i` of it is the digest of nodes `2i`
/// and `2i + 1`, an odd last node being paired with itself.
pub proof fn law_merkle_level_pairs_every_node(level: Seq<Seq<u8>>)
    ensures
        merkle_next(level).len() == (level.len() + 1) / 2,
        forall|i: int|
            0 <= i < (level.len() + 1) / 2 ==> #[trigger] merkle_next(level)[i] == blake3_digest(
                level[2 * i] + if 2 * i + 1 < level.len() {
                    level[2 * i + 1]
                } else {
                    level[2 * i]
                },
            ),
{
}

/// The root of one, two and three leaves: a single leaf is its own root,
/// two are hashed together, and of three the last is paired with itself, so
/// that the root depends on every leaf.
pub proof fn law_merkle_small_trees(a: Seq<u8>, b: Seq<u8>, c: Seq<u8>)
    ensures
        merkle_fold(seq![a]) == a,
        merkle_fold(seq![a, b]) == blake3_digest(a + b),
        merkle_fold(seq![a, b, c]) == blake3_digest(
            blake3_digest(a + b) + blake3_digest(c + c),
        ),
{
    let two = seq![a, b];
    assert(merkle_next(two) =~= seq![blake3_digest(a + b)]);
    assert(merkle_fold(seq![blake3_digest(a + b)]) == blake3_digest(a + b));
    let three = seq![a, b, c];
    let up = seq![blake3_digest(a + b), blake3_digest(c + c)];
    assert(merkle_padded(three) =~= seq![a, b, c, c]);
    assert(merkle_next(three) =~= up);
    assert(merkle_next(up) =~= seq![blake3_digest(up[0] + up[1])]);
    assert(merkle_fold(seq![blake3_digest(up[0] + up[1])]) == blake3_digest(up[0] + up[1]));
    assert(merkle_fold(up) == blake3_digest(up[0] + up[1]));
    assert(merkle_fold(three) == merkle_fold(up));
}

/// Concatenates two 32-byte nodes.
fn join_nodes(a: &[u8; 32], b: &[u8; 32]) -> (res: Vec<u8>)
    ensures
        res@ == a@ + b@,
{
    let mut out: Vec<u8> = Vec::new();
    crate::text::push_bytes(&mut out, a);
    crate::text::push_bytes(&mut out, b);
    out
}

/// The views of a level of nodes.
pub open spec fn node_views(v: Seq<[u8; 32]>) -> Seq<Seq<u8>> {
    v.map_values(|n: [u8; 32]| n@)
}

/// The Merkle root of non-empty leaves.
pub fn merkle_root_of(leaves: Vec<[u8; 32]>) -> (res: [u8; 32])
    requires
        leaves@.len() > 0,
    ensures
        res@ == merkle_fold(node_views(leaves@)),
{
    let mut level = leaves;
    while level.len() > 1
        invariant
            level@.len() > 0,
            merkle_fold(node_views(level@)) == merkle_fold(node_views(leaves@)),
        decreases level@.len(),
    {
        let ghost before = node_views(level@);
        if level.len() % 2 == 1 {
            let last = level[level.len() - 1];
            level.push(last);
        }
        let ghost padded = node_views(level@);
        assert(padded =~= merkle_padded(before));
        let mut next: Vec<[u8; 32]> = Vec::new();
        let mut i: usize = 0;
        while i + 1 < level.len()
            invariant
                level@.len() % 2 == 0,
                level@.len() >= 2,
                padded == node_views(level@),
                i % 2 == 0,
                i <= level@.len(),
                next@.len() == i / 2,
                forall|k: int| 0 <= k < i / 2 ==> (#[trigger] next@[k])@ == blake3_digest(
                    padded[2 * k] + padded[2 * k + 1],
                ),
            decreases level@.len() - i,
        {
            let joined = join_nodes(&level[i], &level[i + 1]);
            next.push(blake3_hash(&joined));
            i = i + 2;
        }
        proof {
            assert(node_views(next@) =~= merkle_next(before));
        }
        level = next;
    }
    level[0]
}

} // verus!
