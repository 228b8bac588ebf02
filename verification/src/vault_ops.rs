//! How a vault's catalog changes: each change makes a new version that
//! names the previous catalog; files are added, tombstoned with a retention
//! period, restored from the newest version still held, and collected once
//! their retention ends. Also how a catalog chain is followed.
use vstd::prelude::*;
use crate::text::str_equal;
use crate::catalog::{CatalogFileVersion, VaultCatalog};
use crate::order::texts;
use crate::mesh::contains_text;

verus! {

/// How long a deleted file version is retained: thirty days.
pub const RETENTION_SECONDS: i64 = 30 * 86400;

/// Replicas kept of each data chunk.
pub const DATA_REPLICAS: usize = 3;

/// Replicas kept of each encrypted manifest and catalog.
pub const METADATA_REPLICAS: usize = 5;

/// `new` is `old` moved to the next version, naming `previous` as the
/// catalog it follows, made at `timestamp`, with the given files.
pub open spec fn advanced(
    old: &VaultCatalog,
    new: &VaultCatalog,
    previous: Seq<char>,
    timestamp: i64,
    files: Seq<CatalogFileVersion>,
) -> bool {
    &&& new.catalog_version == old.catalog_version + 1
    &&& new.vault_id == old.vault_id
    &&& new.owner_member_id == old.owner_member_id
    &&& (new.previous_catalog_cid matches Some(p) && p@ == previous)
    &&& new.created_at == timestamp
    &&& new.files@ == files
}

/// Moves a catalog to its next version after the catalog `previous_cid`.
pub fn advance_catalog(catalog: &mut VaultCatalog, previous_cid: String, timestamp: i64)
    requires
        old(catalog).catalog_version < u64::MAX,
    ensures
        advanced(old(catalog), final(catalog), previous_cid@, timestamp, old(catalog).files@),
{
    catalog.previous_catalog_cid = Some(previous_cid);
    catalog.catalog_version = catalog.catalog_version + 1;
    catalog.created_at = timestamp;
}

/// Adds a file version to a catalog, as its next version.
pub fn add_file_version(
    catalog: &mut VaultCatalog,
    entry: CatalogFileVersion,
    previous_cid: String,
    timestamp: i64,
)
    requires
        old(catalog).catalog_version < u64::MAX,
    ensures
        advanced(old(catalog), final(catalog), previous_cid@, timestamp, old(catalog).files@.push(entry)),
{
    catalog.files.push(entry);
    advance_catalog(catalog, previous_cid, timestamp);
}

/// The newest version of a file that is not deleted, among the first `n`.
pub open spec fn latest_active(files: Seq<CatalogFileVersion>, file_id: Seq<char>, n: int) -> Option<int>
    decreases n,
{
    if n <= 0 {
        None
    } else if files[n - 1].file_id@ == file_id && files[n - 1].deleted_at is None {
        Some(n - 1)
    } else {
        latest_active(files, file_id, n - 1)
    }
}

/// A version restorable at `now`: not deleted, or retained until `now` or
/// later.
pub open spec fn restorable(f: CatalogFileVersion, now: i64) -> bool {
    f.deleted_at is None || (f.retention_until matches Some(until) && until >= now)
}

/// The newest restorable version of a file, among the first `n`.
pub open spec fn latest_restorable(files: Seq<CatalogFileVersion>, file_id: Seq<char>, now: i64, n: int) -> Option<
    int,
>
    decreases n,
{
    if n <= 0 {
        None
    } else if files[n - 1].file_id@ == file_id && restorable(files[n - 1], now) {
        Some(n - 1)
    } else {
        latest_restorable(files, file_id, now, n - 1)
    }
}

/// Tombstones the newest active version of a file: deleted at `timestamp`,
/// retained for thirty days, as the catalog's next version. Without such a
/// version the catalog is left as it is.
pub fn tombstone(catalog: &mut VaultCatalog, file_id: &str, previous_cid: String, timestamp: i64) -> (res:
    bool)
    requires
        latest_active(old(catalog).files@, file_id@, old(catalog).files@.len() as int) is Some
            ==> old(catalog).catalog_version < u64::MAX && timestamp <= i64::MAX - RETENTION_SECONDS,
    ensures
        res == latest_active(old(catalog).files@, file_id@, old(catalog).files@.len() as int) is Some,
        !res ==> *final(catalog) == *old(catalog),
        res ==> ({
            let i = latest_active(old(catalog).files@, file_id@, old(catalog).files@.len() as int)->0;
            let f = old(catalog).files@[i];
            advanced(
                old(catalog),
                final(catalog),
                previous_cid@,
                timestamp,
                old(catalog).files@.update(
                    i,
                    CatalogFileVersion {
                        deleted_at: Some(timestamp),
                        retention_until: Some((timestamp + RETENTION_SECONDS) as i64),
                        ..f
                    },
                ),
            )
        }),
{
    let mut n = catalog.files.len();
    while n > 0
        invariant
            0 <= n <= catalog.files@.len(),
            catalog.files@ == old(catalog).files@,
            *catalog == *old(catalog),
            latest_active(old(catalog).files@, file_id@, old(catalog).files@.len() as int) is Some
                ==> old(catalog).catalog_version < u64::MAX && timestamp <= i64::MAX - RETENTION_SECONDS,
            latest_active(old(catalog).files@, file_id@, old(catalog).files@.len() as int)
                == latest_active(old(catalog).files@, file_id@, n as int),
        decreases n,
    {
        let k = n - 1;
        if str_equal(catalog.files[k].file_id.as_str(), file_id) && catalog.files[k].deleted_at.is_none() {
            let ghost before = catalog.files@;
            let mut entry = catalog.files.remove(k);
            entry.deleted_at = Some(timestamp);
            entry.retention_until = Some(timestamp + RETENTION_SECONDS);
            catalog.files.insert(k, entry);
            assert(catalog.files@ =~= before.update(k as int, catalog.files@[k as int]));
            advance_catalog(catalog, previous_cid, timestamp);
            return true;
        }
        n = k;
    }
    false
}

/// Restoring picks the newest restorable version: among the first `n`
/// versions, the one found has the file's id and is live or retained until
/// `now` or later, and no later version of that file is; when none is found,
/// no version of the file is restorable.
pub proof fn law_restore_picks_newest(
    files: Seq<CatalogFileVersion>,
    file_id: Seq<char>,
    now: i64,
    n: int,
)
    requires
        0 <= n <= files.len(),
    ensures
        match latest_restorable(files, file_id, now, n) {
            Some(i) => 0 <= i < n && files[i].file_id@ == file_id && (files[i].deleted_at is None || (
            files[i].retention_until matches Some(until) && until >= now)) && forall|j: int|
                i < j < n && (#[trigger] files[j]).file_id@ == file_id ==> !(files[j].deleted_at is None
                    || (files[j].retention_until matches Some(until) && until >= now)),
            None => forall|j: int|
                0 <= j < n && (#[trigger] files[j]).file_id@ == file_id ==> !(files[j].deleted_at is None
                    || (files[j].retention_until matches Some(until) && until >= now)),
        },
    decreases n,
{
    if n > 0 {
        law_restore_picks_newest(files, file_id, now, n - 1);
    }
}

/// The newest version of a file restorable at `now`.
pub fn restore_version(files: &Vec<CatalogFileVersion>, file_id: &str, now: i64) -> (res: Option<usize>)
    ensures
        match latest_restorable(files@, file_id@, now, files@.len() as int) {
            Some(i) => res == Some(i as usize),
            None => res is None,
        },
        match res {
            Some(i) => i < files@.len() && files@[i as int].file_id@ == file_id@ && (
            files@[i as int].deleted_at is None || (files@[i as int].retention_until matches Some(
                until,
            ) && until >= now)) && forall|j: int|
                i < j < files@.len() && (#[trigger] files@[j]).file_id@ == file_id@ ==> !(
                files@[j].deleted_at is None || (files@[j].retention_until matches Some(until)
                    && until >= now)),
            None => forall|j: int|
                0 <= j < files@.len() && (#[trigger] files@[j]).file_id@ == file_id@ ==> !(
                files@[j].deleted_at is None || (files@[j].retention_until matches Some(until)
                    && until >= now)),
        },
{
    proof {
        law_restore_picks_newest(files@, file_id@, now, files@.len() as int);
    }
    let mut n = files.len();
    while n > 0
        invariant
            0 <= n <= files@.len(),
            latest_restorable(files@, file_id@, now, files@.len() as int) == latest_restorable(
                files@,
                file_id@,
                now,
                n as int,
            ),
        decreases n,
    {
        let k = n - 1;
        let f = &files[k];
        let keep = match f.deleted_at {
            None => true,
            Some(_) => match f.retention_until {
                Some(until) => until >= now,
                None => false,
            },
        };
        if str_equal(f.file_id.as_str(), file_id) && keep {
            proof {
                law_restore_picks_newest(files@, file_id@, now, files@.len() as int);
            }
            return Some(k);
        }
        n = k;
    }
    None
}

/// A version whose retention ended before `now`.
pub open spec fn expired(f: CatalogFileVersion, now: i64) -> bool {
    f.retention_until matches Some(until) && until < now
}

/// Whether a version's retention ended before `now`.
pub fn is_expired(f: &CatalogFileVersion, now: i64) -> (res: bool)
    ensures
        res == expired(*f, now),
{
    match f.retention_until {
        Some(until) => until < now,
        None => false,
    }
}

/// The versions that stay, in order.
pub open spec fn unexpired(files: Seq<CatalogFileVersion>, now: i64) -> Seq<CatalogFileVersion> {
    files.filter(|f: CatalogFileVersion| !expired(f, now))
}

/// Drops the versions whose retention ended before `now`, keeping the order
/// of the others; whether any was dropped.
pub fn drop_expired(files: &mut Vec<CatalogFileVersion>, now: i64) -> (res: bool)
    ensures
        final(files)@ == unexpired(old(files)@, now),
        res == (final(files)@.len() != old(files)@.len()),
{
    let ghost original = files@;
    let mut kept: Vec<CatalogFileVersion> = Vec::new();
    let original_len = files.len();
    let mut k: usize = 0;
    while files.len() > 0
        invariant
            k + files@.len() == original.len(),
            files@ == original.skip(k as int),
            kept@ == unexpired(original.take(k as int), now),
            original_len == original.len(),
        decreases files@.len(),
    {
        let f = files.remove(0);
        proof {
            assert(original.take(k + 1).drop_last() =~= original.take(k as int));
            assert(original.take(k + 1).last() == f);
            original.take(k as int).lemma_filter_push(f, |g: CatalogFileVersion| !expired(g, now));
            assert(original.take(k as int).push(f) =~= original.take(k + 1));
        }
        if !is_expired(&f, now) {
            kept.push(f);
        }
        k = k + 1;
        assert(files@ =~= original.skip(k as int));
    }
    assert(original.take(k as int) =~= original);
    *files = kept;
    files.len() != original_len
}

/// The next catalog back along a chain: none when the catalog names no
/// predecessor; an error when it names one below version one.
pub open spec fn chain_step_spec(version: u64, previous: Option<Seq<char>>) -> Result<Option<(Seq<char>, u64)>, ()> {
    match previous {
        None => Ok(None),
        Some(p) => if version <= 1 {
            Err(())
        } else {
            Ok(Some((p, (version - 1) as u64)))
        },
    }
}

/// The next catalog back along a chain.
pub fn chain_step(version: u64, previous: &Option<String>) -> (res: Result<Option<(String, u64)>, ()>)
    ensures
        match chain_step_spec(version, crate::legacy::opt_text(*previous)) {
            Ok(None) => res matches Ok(None),
            Ok(Some((p, v))) => res matches Ok(Some((q, w))) && q@ == p && w == v,
            Err(_) => res is Err,
        },
{
    match previous {
        None => Ok(None),
        Some(p) => {
            if version <= 1 {
                Err(())
            } else {
                Ok(Some((p.clone(), version - 1)))
            }
        },
    }
}

/// A catalog found in storage: its version, its identifier and the
/// catalog it names as its predecessor.
#[derive(Clone, Debug)]
pub struct CatalogCandidate {
    pub version: u64,
    pub cid: String,
    pub previous: Option<String>,
}

/// The last candidate found for a version, among the first `n`.
pub open spec fn candidate_at(s: Seq<CatalogCandidate>, version: u64, n: int) -> Option<CatalogCandidate>
    decreases n,
{
    if n <= 0 {
        None
    } else if s[n - 1].version == version {
        Some(s[n - 1])
    } else {
        candidate_at(s, version, n - 1)
    }
}

/// Follows the chain forward from a version and catalog: while the next
/// version was found and names the current catalog as its predecessor.
pub open spec fn walk_forward(s: Seq<CatalogCandidate>, version: u64, cid: Seq<char>) -> (u64, Seq<char>)
    decreases u64::MAX - version,
{
    if version == u64::MAX {
        (version, cid)
    } else {
        match candidate_at(s, (version + 1) as u64, s.len() as int) {
            Some(c) => if (c.previous matches Some(p) && p@ == cid) {
                walk_forward(s, (version + 1) as u64, c.cid@)
            } else {
                (version, cid)
            },
            None => (version, cid),
        }
    }
}

/// The last candidate for a version.
fn find_candidate(s: &Vec<CatalogCandidate>, version: u64) -> (res: Option<usize>)
    ensures
        match candidate_at(s@, version, s@.len() as int) {
            Some(c) => res matches Some(i) && i < s@.len() && s@[i as int] == c,
            None => res is None,
        },
{
    let mut n = s.len();
    while n > 0
        invariant
            0 <= n <= s@.len(),
            candidate_at(s@, version, s@.len() as int) == candidate_at(s@, version, n as int),
        decreases n,
    {
        if s[n - 1].version == version {
            return Some(n - 1);
        }
        n = n - 1;
    }
    None
}

/// The newest catalog reachable forward from a checkpoint through the
/// candidates found in storage.
pub fn latest_in_chain(version: u64, cid: &String, candidates: &Vec<CatalogCandidate>) -> (res: (u64, String))
    ensures
        (res.0, res.1@) == walk_forward(candidates@, version, cid@),
{
    let mut current_version = version;
    let mut current_cid = cid.clone();
    while current_version < u64::MAX
        invariant_except_break
            walk_forward(candidates@, current_version, current_cid@) == walk_forward(
                candidates@,
                version,
                cid@,
            ),
        ensures
            walk_forward(candidates@, current_version, current_cid@) == (current_version, current_cid@),
            walk_forward(candidates@, current_version, current_cid@) == walk_forward(
                candidates@,
                version,
                cid@,
            ),
        decreases u64::MAX - current_version,
    {
        let next = current_version + 1;
        match find_candidate(candidates, next) {
            None => {
                break;
            },
            Some(i) => {
                let linked = match &candidates[i].previous {
                    Some(p) => str_equal(p.as_str(), current_cid.as_str()),
                    None => false,
                };
                if !linked {
                    break;
                }
                current_version = next;
                current_cid = candidates[i].cid.clone();
            },
        }
    }
    (current_version, current_cid)
}

/// Tombstoning keeps a file restorable until its retention ends: right
/// after a version is tombstoned at `t`, it is restorable at every time up
/// to thirty days later.
pub proof fn law_tombstone_retains(f: CatalogFileVersion, t: i64, now: i64)
    requires
        t <= i64::MAX - RETENTION_SECONDS,
        now <= t + RETENTION_SECONDS,
    ensures
        restorable(
            CatalogFileVersion {
                deleted_at: Some(t),
                retention_until: Some((t + RETENTION_SECONDS) as i64),
                ..f
            },
            now,
        ),
        !expired(
            CatalogFileVersion {
                deleted_at: Some(t),
                retention_until: Some((t + RETENTION_SECONDS) as i64),
                ..f
            },
            now,
        ),
{
}

/// Collection never drops a restorable version of a file that is retained:
/// every version that is not expired stays after `drop_expired`.
pub proof fn law_collection_keeps_unexpired(files: Seq<CatalogFileVersion>, now: i64, i: int)
    requires
        0 <= i < files.len(),
        !expired(files[i], now),
    ensures
        unexpired(files, now).contains(files[i]),
{
    files.lemma_filter_contains(|g: CatalogFileVersion| !expired(g, now), i);
}

/// The identifiers that garbage collection removes: the candidates outside
/// the retained set, in order.
pub fn not_retained(candidates: &Vec<String>, retained: &Vec<String>) -> (res: Vec<String>)
    ensures
        texts(res@) == texts(candidates@).filter(|c: Seq<char>| !texts(retained@).contains(c)),
{
    let ghost keep = |c: Seq<char>| !texts(retained@).contains(c);
    let mut out: Vec<String> = Vec::new();
    let mut i: usize = 0;
    while i < candidates.len()
        invariant
            0 <= i <= candidates@.len(),
            keep == (|c: Seq<char>| !texts(retained@).contains(c)),
            texts(out@) == texts(candidates@).take(i as int).filter(keep),
        decreases candidates@.len() - i,
    {
        let ghost before = out@;
        proof {
            texts(candidates@).take(i as int).lemma_filter_push(candidates@[i as int]@, keep);
            assert(texts(candidates@).take(i as int).push(candidates@[i as int]@) =~= texts(
                candidates@,
            ).take(i + 1));
        }
        if !contains_text(retained, &candidates[i]) {
            out.push(candidates[i].clone());
            assert(texts(out@) =~= texts(before).push(candidates@[i as int]@));
        }
        i = i + 1;
    }
    assert(texts(candidates@).take(candidates@.len() as int) =~= texts(candidates@));
    out
}

} // verus!
