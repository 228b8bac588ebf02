//! Operating-system randomness, through `rand_core::OsRng`.
use vstd::prelude::*;
use rand_core::{OsRng, RngCore};

verus! {

/// `RngCore::fill_bytes` of `OsRng`: `len` random bytes. Nothing is stated of
/// their values.
#[verifier::external_body]
pub(crate) fn random_bytes(len: usize) -> (res: Vec<u8>)
    ensures
        res@.len() == len,
{
    let mut bytes = vec![0u8; len];
    OsRng.fill_bytes(&mut bytes);
    bytes
}

/// Copies exactly 32 bytes into an array.
pub fn to_array32(v: &[u8]) -> (res: [u8; 32])
    requires
        v@.len() == 32,
    ensures
        res@ == v@,
{
    let mut out = [0u8; 32];
    let mut i: usize = 0;
    while i < 32
        invariant
            v@.len() == 32,
            0 <= i <= 32,
            forall|k: int| 0 <= k < i ==> out@[k] == v@[k],
        decreases 32 - i,
    {
        out[i] = v[i];
        i = i + 1;
    }
    assert(out@ =~= v@);
    out
}

/// 32 random bytes.
pub fn random_32() -> (res: [u8; 32]) {
    let v = random_bytes(32);
    to_array32(&v)
}

} // verus!
