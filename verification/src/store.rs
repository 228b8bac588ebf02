//! Content-addressed object storage: where an object lives, and the checks
//! made before it is written and after it is read.
use vstd::prelude::*;
use crate::text::{utf8, is_cid, is_cid_bytes, str_equal, ascii_string, ascii_chars, all_ascii,
    push_str};
use crate::hashing::{cid, cid_of};

verus! {

/// Why a store operation failed.
#[derive(Debug)]
pub enum StoreError {
    InvalidCid,
    CidMismatch,
    Quota,
    Io(std::io::Error),
}

/// The directory and file name of an object under the store's `objects`
/// directory: the first two hex digits, then the identifier with `.blob`.
pub open spec fn location_spec(object_cid: Seq<char>) -> (Seq<char>, Seq<char>) {
    (object_cid.take(2), object_cid + ".blob"@)
}

/// Where an object with this identifier lives; only a content identifier
/// names a location, so no other path can be reached.
pub fn object_location(object_cid: &str) -> (res: Result<(String, String), StoreError>)
    ensures
        !is_cid_bytes(utf8(object_cid@)) ==> res matches Err(StoreError::InvalidCid),
        is_cid_bytes(utf8(object_cid@)) ==> (res matches Ok((d, f)) && (d@, f@) == location_spec(
            object_cid@,
        )),
{
    if !is_cid(object_cid) {
        return Err(StoreError::InvalidCid);
    }
    let bytes = object_cid.as_bytes();
    proof {
        crate::text::lemma_cid_ascii(object_cid@);
    }
    let mut shard: Vec<u8> = Vec::new();
    shard.push(bytes[0]);
    shard.push(bytes[1]);
    let mut name: Vec<u8> = Vec::new();
    push_str(&mut name, object_cid);
    push_str(&mut name, ".blob");
    proof {
        reveal_strlit(".blob");
        assert(vstd::utf8::is_ascii_chars(".blob"@));
        crate::text::lemma_ascii_text(".blob"@);
        assert(all_ascii(name@));
        assert(ascii_chars(shard@) =~= object_cid@.take(2)) by {
            assert(ascii_chars(utf8(object_cid@)) == object_cid@);
            assert(shard@[0] == utf8(object_cid@)[0] && shard@[1] == utf8(object_cid@)[1]);
        }
        assert(ascii_chars(name@) =~= object_cid@ + ".blob"@) by {
            assert(ascii_chars(utf8(object_cid@)) == object_cid@);
            assert(name@ == utf8(object_cid@) + utf8(".blob"@));
        }
    }
    let dir = ascii_string(shard);
    let file = ascii_string(name);
    Ok((dir, file))
}

/// What writing `bytes` under `expected_cid` with a quota first refuses:
/// bytes that do not hash to the identifier, then bytes over the quota,
/// then an identifier that is not one.
pub open spec fn put_check(expected_cid: Seq<char>, bytes: Seq<u8>, quota: u64) -> Result<(), StoreError> {
    if cid_of(bytes) != expected_cid {
        Err(StoreError::CidMismatch)
    } else if bytes.len() > quota {
        Err(StoreError::Quota)
    } else if !is_cid_bytes(utf8(expected_cid)) {
        Err(StoreError::InvalidCid)
    } else {
        Ok(())
    }
}

/// The checks made before an object is written.
pub fn check_put(expected_cid: &str, bytes: &[u8], quota: u64) -> (res: Result<(), StoreError>)
    ensures
        match put_check(expected_cid@, bytes@, quota) {
            Ok(_) => res is Ok,
            Err(StoreError::CidMismatch) => res matches Err(StoreError::CidMismatch),
            Err(StoreError::Quota) => res matches Err(StoreError::Quota),
            Err(_) => res matches Err(StoreError::InvalidCid),
        },
{
    let actual = cid(bytes);
    if !str_equal(actual.as_str(), expected_cid) {
        return Err(StoreError::CidMismatch);
    }
    if bytes.len() as u128 > quota as u128 {
        return Err(StoreError::Quota);
    }
    if !is_cid(expected_cid) {
        return Err(StoreError::InvalidCid);
    }
    Ok(())
}

/// The check made on bytes read for an object: they must hash to its
/// identifier.
pub fn check_read(object_cid: &str, bytes: &[u8]) -> (res: Result<(), StoreError>)
    ensures
        res is Ok <==> cid_of(bytes@) == object_cid@,
        res is Err ==> res matches Err(StoreError::CidMismatch),
{
    let actual = cid(bytes);
    if !str_equal(actual.as_str(), object_cid) {
        return Err(StoreError::CidMismatch);
    }
    Ok(())
}

/// Bytes stored under their own identifier read back as themselves: the
/// write check and the read check agree.
pub proof fn law_put_then_read(expected_cid: Seq<char>, bytes: Seq<u8>, quota: u64)
    requires
        put_check(expected_cid, bytes, quota) is Ok,
    ensures
        cid_of(bytes) == expected_cid,
        bytes.len() <= quota,
{
}

} // verus!
