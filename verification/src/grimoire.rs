//! The community grimoire: knowledge confirmed with its rationale,
//! alternatives, exceptions and contributors, and ratified by a quorum of
//! distinct members.
use vstd::prelude::*;
use crate::text::{utf8, is_cid, is_cid_bytes, push_bytes, str_equal, hex_chars, bytes_lt,
    compare_bytes, bytes_eq, lemma_lt_total, lemma_lt_transitive, lemma_lt_irreflexive};
use crate::json::{json_text, json_text_array, json_opt_text, json_int, dec, push_json_str,
    push_json_str_array, push_json_opt_str, push_json_i64, push_dec};
use crate::order::{sort_dedup_by, adjacent_sorted, text_lt, texts, sort_dedup_strings,
    strings_strictly_increasing, insert_by, lemma_insert_by_at, lemma_insert_keeps_adjacent};
use crate::hashing::blake3_digest;
use crate::identity::{Identity, IdentityError, signature_outcome, signature_accepted,
    verify_signature, prefixed_digest};
use crate::signing::{ed25519_public_key_of, ed25519_signature_of};
use crate::compute::{all_cids, all_are_cids};
use crate::legacy::opt_text;

verus! {

/// One member's signature over a grimoire record.
#[derive(Debug)]
pub struct Ratification {
    pub ratifier_public_key: [u8; 32],
    pub signature: Vec<u8>,
}

/// A confirmed piece of community knowledge.
#[derive(Debug)]
pub struct GrimoireRecord {
    pub record_version: u16,
    pub record_id: String,
    pub community_id: String,
    pub knowledge_cid: String,
    pub rationale_cid: String,
    pub alternative_cids: Vec<String>,
    pub exception_cids: Vec<String>,
    pub contributor_ids: Vec<String>,
    pub supersedes: Option<String>,
    pub ratification_threshold: u16,
    pub ratifications: Vec<Ratification>,
    pub confirmed_at: i64,
}

/// Why a record was refused.
#[derive(Debug)]
pub enum GrimoireError {
    Invalid,
    Ratification,
    Signature(IdentityError),
}

/// Public keys are ordered by their bytes.
pub open spec fn key_lt() -> spec_fn(Seq<u8>, Seq<u8>) -> bool {
    |a: Seq<u8>, b: Seq<u8>| bytes_lt(a, b)
}

/// The ratifiers' public keys, in the order they were given.
pub open spec fn rat_keys(s: Seq<Ratification>) -> Seq<Seq<u8>> {
    s.map_values(|r: Ratification| r.ratifier_public_key@)
}

/// The seeds of the given identities.
pub open spec fn ratifier_seeds(s: Seq<&Identity>) -> Seq<Seq<u8>> {
    s.map_values(|r: &Identity| r.seed())
}

/// The public keys of the given identities.
pub open spec fn ratifier_keys(s: Seq<&Identity>) -> Seq<Seq<u8>> {
    ratifier_seeds(s).map_values(|k: Seq<u8>| ed25519_public_key_of(k))
}

/// `sig` is the signature over `msg` by the first of `seeds` whose public
/// key is `key`.
pub open spec fn signed_by_first(seeds: Seq<Seq<u8>>, key: Seq<u8>, sig: Seq<u8>, msg: Seq<u8>) -> bool {
    exists|j: int|
        0 <= j < seeds.len() && ed25519_public_key_of(#[trigger] seeds[j]) == key && (forall|k: int|
            0 <= k < j ==> ed25519_public_key_of(#[trigger] seeds[k]) != key) && sig
            == ed25519_signature_of(seeds[j], msg)
}

/// Every string is non-empty.
pub open spec fn all_named(s: Seq<Seq<char>>) -> bool {
    forall|i: int| 0 <= i < s.len() ==> (#[trigger] s[i]).len() > 0
}

/// The shape check over the fields it reads.
pub open spec fn grimoire_shape_parts(
    version: u16,
    community: Seq<char>,
    knowledge: Seq<char>,
    rationale: Seq<char>,
    alternatives: Seq<Seq<char>>,
    exceptions: Seq<Seq<char>>,
    contributors: Seq<Seq<char>>,
    threshold: u16,
    confirmed_at: i64,
) -> bool {
    &&& version == 1
    &&& community.len() > 0
    &&& is_cid_bytes(utf8(knowledge))
    &&& is_cid_bytes(utf8(rationale))
    &&& all_cids(alternatives)
    &&& all_cids(exceptions)
    &&& adjacent_sorted(alternatives, text_lt())
    &&& adjacent_sorted(exceptions, text_lt())
    &&& contributors.len() > 0
    &&& all_named(contributors)
    &&& adjacent_sorted(contributors, text_lt())
    &&& threshold != 0
    &&& confirmed_at >= 0
}

/// Whether a record has a valid shape.
pub open spec fn grimoire_shape(r: &GrimoireRecord) -> bool {
    grimoire_shape_parts(
        r.record_version,
        r.community_id@,
        r.knowledge_cid@,
        r.rationale_cid@,
        texts(r.alternative_cids@),
        texts(r.exception_cids@),
        texts(r.contributor_ids@),
        r.ratification_threshold,
        r.confirmed_at,
    )
}

/// The JSON tuple whose digest is the record id.
pub open spec fn grimoire_identity_spec(r: &GrimoireRecord) -> Seq<u8> {
    seq![91u8] + json_text("acm.grimoire-record.v1"@) + seq![44u8] + dec(
        r.record_version as nat,
    ) + seq![44u8] + json_text(r.community_id@) + seq![44u8] + json_text(r.knowledge_cid@)
        + seq![44u8] + json_text(r.rationale_cid@) + seq![44u8] + json_text_array(
        texts(r.alternative_cids@),
    ) + seq![44u8] + json_text_array(texts(r.exception_cids@)) + seq![44u8] + json_text_array(
        texts(r.contributor_ids@),
    ) + seq![44u8] + json_opt_text(opt_text(r.supersedes)) + seq![44u8] + dec(
        r.ratification_threshold as nat,
    ) + seq![44u8] + json_int(r.confirmed_at as int) + seq![93u8]
}

/// The bytes each ratifier signs.
pub open spec fn grimoire_canonical_spec(r: &GrimoireRecord) -> Seq<u8> {
    grimoire_identity_spec(r) + utf8(r.record_id@)
}

/// The id a record must carry.
pub open spec fn grimoire_id_spec(r: &GrimoireRecord) -> Seq<char> {
    "gri_"@ + hex_chars(blake3_digest(grimoire_identity_spec(r)))
}

/// The first signature check that fails, in order, if any.
pub open spec fn ratifications_outcome(rats: Seq<Ratification>, msg: Seq<u8>) -> Result<
    (),
    IdentityError,
>
    decreases rats.len(),
{
    if rats.len() == 0 {
        Ok(())
    } else {
        match ratifications_outcome(rats.drop_last(), msg) {
            Err(e) => Err(e),
            Ok(_) => signature_outcome(
                rats.last().ratifier_public_key@,
                msg,
                rats.last().signature@,
            ),
        }
    }
}

/// What `GrimoireRecord::verify` answers.
pub open spec fn grimoire_verify_outcome(r: &GrimoireRecord) -> Result<(), GrimoireError> {
    if !grimoire_shape(r) {
        Err(GrimoireError::Invalid)
    } else if r.record_id@ != grimoire_id_spec(r) {
        Err(GrimoireError::Invalid)
    } else if r.ratifications@.len() < r.ratification_threshold || !adjacent_sorted(
        rat_keys(r.ratifications@),
        key_lt(),
    ) {
        Err(GrimoireError::Ratification)
    } else {
        match ratifications_outcome(r.ratifications@, grimoire_canonical_spec(r)) {
            Err(e) => Err(GrimoireError::Signature(e)),
            Ok(_) => Ok(()),
        }
    }
}

/// A failure among the first `k` ratifications is the answer for all.
proof fn lemma_outcome_prefix_err(s: Seq<Ratification>, msg: Seq<u8>, k: int)
    requires
        0 <= k <= s.len(),
        ratifications_outcome(s.take(k), msg) is Err,
    ensures
        ratifications_outcome(s, msg) == ratifications_outcome(s.take(k), msg),
    decreases s.len() - k,
{
    if k == s.len() {
        assert(s.take(k) =~= s);
    } else {
        assert(s.take(k + 1).drop_last() =~= s.take(k));
        lemma_outcome_prefix_err(s, msg, k + 1);
    }
}

/// Ratifications whose signatures are all accepted pass every check.
proof fn lemma_outcome_all_accepted(s: Seq<Ratification>, msg: Seq<u8>)
    requires
        forall|q: int|
            0 <= q < s.len() ==> signature_accepted(
                (#[trigger] s[q]).ratifier_public_key@,
                msg,
                s[q].signature@,
            ),
    ensures
        ratifications_outcome(s, msg) is Ok,
    decreases s.len(),
{
    if s.len() > 0 {
        assert forall|q: int| 0 <= q < s.drop_last().len() implies signature_accepted(
            (#[trigger] s.drop_last()[q]).ratifier_public_key@,
            msg,
            s.drop_last()[q].signature@,
        ) by {
            assert(s.drop_last()[q] == s[q]);
        }
        lemma_outcome_all_accepted(s.drop_last(), msg);
        assert(signature_accepted(s.last().ratifier_public_key@, msg, s.last().signature@));
    }
}

/// Whether every string of a vector is non-empty.
fn all_nonempty(v: &Vec<String>) -> (res: bool)
    ensures
        res == all_named(texts(v@)),
{
    let mut i: usize = 0;
    while i < v.len()
        invariant
            0 <= i <= v@.len(),
            forall|k: int| 0 <= k < i ==> (#[trigger] texts(v@)[k]).len() > 0,
        decreases v@.len() - i,
    {
        if v[i].as_str().is_empty() {
            assert(texts(v@)[i as int].len() == 0);
            return false;
        }
        i = i + 1;
    }
    true
}

/// Whether public key `a` sorts before `b`.
fn key_less(a: &[u8; 32], b: &[u8; 32]) -> (res: bool)
    ensures
        res == bytes_lt(a@, b@),
{
    compare_bytes(a, b) == -1
}

/// Whether a ratification by `key` is already present.
fn has_key(rats: &Vec<Ratification>, key: &[u8; 32]) -> (res: bool)
    ensures
        res == rat_keys(rats@).contains(key@),
{
    let mut i: usize = 0;
    while i < rats.len()
        invariant
            0 <= i <= rats@.len(),
            forall|k: int| 0 <= k < i ==> rat_keys(rats@)[k] != key@,
        decreases rats@.len() - i,
    {
        if bytes_eq(&rats[i].ratifier_public_key, key) {
            assert(rat_keys(rats@)[i as int] == key@);
            return true;
        }
        i = i + 1;
    }
    false
}

/// Where a ratification by `key` goes: before the first larger key.
fn key_position(rats: &Vec<Ratification>, key: &[u8; 32]) -> (j: usize)
    ensures
        0 <= j <= rats@.len(),
        forall|q: int| 0 <= q < j ==> !bytes_lt(key@, #[trigger] rat_keys(rats@)[q]),
        j < rats@.len() ==> bytes_lt(key@, rat_keys(rats@)[j as int]),
{
    let mut j: usize = 0;
    while j < rats.len()
        invariant
            0 <= j <= rats@.len(),
            forall|q: int| 0 <= q < j ==> !bytes_lt(key@, #[trigger] rat_keys(rats@)[q]),
        decreases rats@.len() - j,
    {
        if key_less(key, &rats[j].ratifier_public_key) {
            return j;
        }
        j = j + 1;
    }
    j
}

/// Neighbouring keys that strictly increase: the negation of the
/// `windows(2).any(|pair| pair[0] >= pair[1])` check.
fn keys_strictly_increasing(rats: &Vec<Ratification>) -> (res: bool)
    ensures
        res == adjacent_sorted(rat_keys(rats@), key_lt()),
{
    if rats.len() < 2 {
        return true;
    }
    let mut i: usize = 0;
    while i < rats.len() - 1
        invariant
            rats@.len() >= 2,
            0 <= i <= rats@.len() - 1,
            forall|k: int| 0 <= k < i ==> bytes_lt(#[trigger] rat_keys(rats@)[k], rat_keys(rats@)[k + 1]),
        decreases rats@.len() - i,
    {
        if !key_less(&rats[i].ratifier_public_key, &rats[i + 1].ratifier_public_key) {
            assert(!(key_lt())(rat_keys(rats@)[i as int], rat_keys(rats@)[i + 1]));
            return false;
        }
        i = i + 1;
    }
    true
}

impl GrimoireRecord {
    /// Whether the record has a valid shape.
    pub fn validate_shape(&self) -> (res: Result<(), GrimoireError>)
        ensures
            res is Ok <==> grimoire_shape(self),
            res is Err ==> res == Err::<(), GrimoireError>(GrimoireError::Invalid),
    {
        if self.record_version != 1 || self.community_id.as_str().is_empty() || !is_cid(
            self.knowledge_cid.as_str(),
        ) || !is_cid(self.rationale_cid.as_str()) || !all_are_cids(&self.alternative_cids)
            || !all_are_cids(&self.exception_cids) || !strings_strictly_increasing(
            &self.alternative_cids,
        ) || !strings_strictly_increasing(&self.exception_cids) || self.contributor_ids.len()
            == 0 || !all_nonempty(&self.contributor_ids) || !strings_strictly_increasing(
            &self.contributor_ids,
        ) || self.ratification_threshold == 0 || self.confirmed_at < 0 {
            return Err(GrimoireError::Invalid);
        }
        Ok(())
    }

    /// The JSON tuple whose digest is the record id.
    pub fn identity_bytes(&self) -> (res: Vec<u8>)
        ensures
            res@ == grimoire_identity_spec(self),
    {
        let mut out: Vec<u8> = Vec::new();
        out.push(91);
        push_json_str(&mut out, "acm.grimoire-record.v1");
        out.push(44);
        push_dec(&mut out, self.record_version as u64);
        out.push(44);
        push_json_str(&mut out, self.community_id.as_str());
        out.push(44);
        push_json_str(&mut out, self.knowledge_cid.as_str());
        out.push(44);
        push_json_str(&mut out, self.rationale_cid.as_str());
        out.push(44);
        push_json_str_array(&mut out, &self.alternative_cids);
        out.push(44);
        push_json_str_array(&mut out, &self.exception_cids);
        out.push(44);
        push_json_str_array(&mut out, &self.contributor_ids);
        out.push(44);
        push_json_opt_str(&mut out, &self.supersedes);
        out.push(44);
        push_dec(&mut out, self.ratification_threshold as u64);
        out.push(44);
        push_json_i64(&mut out, self.confirmed_at);
        out.push(93);
        assert(out@ =~= grimoire_identity_spec(self));
        out
    }

    /// The bytes each ratifier signs.
    pub fn canonical_bytes(&self) -> (res: Vec<u8>)
        ensures
            res@ == grimoire_canonical_spec(self),
    {
        let mut out = self.identity_bytes();
        push_bytes(&mut out, self.record_id.as_str().as_bytes());
        out
    }

    /// Checks shape, id, that the ratifications meet the threshold with
    /// strictly increasing (so distinct) keys, and every signature.
    pub fn verify(&self) -> (res: Result<(), GrimoireError>)
        ensures
            res == grimoire_verify_outcome(self),
    {
        match self.validate_shape() {
            Err(e) => {
                return Err(e);
            },
            Ok(_) => {},
        }
        let identity = self.identity_bytes();
        let expected = prefixed_digest("gri_", &identity);
        if !str_equal(self.record_id.as_str(), expected.as_str()) {
            return Err(GrimoireError::Invalid);
        }
        if self.ratifications.len() < self.ratification_threshold as usize
            || !keys_strictly_increasing(&self.ratifications) {
            return Err(GrimoireError::Ratification);
        }
        let message = self.canonical_bytes();
        let ghost msg = message@;
        let mut i: usize = 0;
        while i < self.ratifications.len()
            invariant
                0 <= i <= self.ratifications@.len(),
                msg == grimoire_canonical_spec(self),
                message@ == msg,
                grimoire_shape(self),
                self.record_id@ == grimoire_id_spec(self),
                self.ratifications@.len() >= self.ratification_threshold,
                adjacent_sorted(rat_keys(self.ratifications@), key_lt()),
                ratifications_outcome(self.ratifications@.take(i as int), msg) is Ok,
            decreases self.ratifications@.len() - i,
        {
            let r = &self.ratifications[i];
            let checked = verify_signature(
                &r.ratifier_public_key,
                &message,
                r.signature.as_slice(),
            );
            proof {
                assert(self.ratifications@.take(i + 1).drop_last() =~= self.ratifications@.take(
                    i as int,
                ));
                assert(self.ratifications@.take(i + 1).last() == self.ratifications@[i as int]);
                assert(checked == ratifications_outcome(self.ratifications@.take(i + 1), msg));
            }
            match checked {
                Err(e) => {
                    proof {
                        lemma_outcome_prefix_err(self.ratifications@, msg, i + 1);
                    }
                    return Err(GrimoireError::Signature(e));
                },
                Ok(_) => {},
            }
            i = i + 1;
        }
        assert(self.ratifications@.take(self.ratifications@.len() as int)
            =~= self.ratifications@);
        Ok(())
    }

    /// Confirms knowledge: the lists sorted without repetition, shape
    /// checked, id derived from the identity bytes, then one ratification per
    /// distinct ratifier key (the first identity with that key signs), in key
    /// order, and the whole record verified.
    pub fn confirm(
        community_id: String,
        knowledge_cid: String,
        rationale_cid: String,
        alternative_cids: Vec<String>,
        exception_cids: Vec<String>,
        contributor_ids: Vec<String>,
        supersedes: Option<String>,
        ratification_threshold: u16,
        ratifiers: &[&Identity],
        confirmed_at: i64,
    ) -> (res: Result<Self, GrimoireError>)
        ensures
            !grimoire_shape_parts(
                1,
                community_id@,
                knowledge_cid@,
                rationale_cid@,
                sort_dedup_by(texts(alternative_cids@), text_lt()),
                sort_dedup_by(texts(exception_cids@), text_lt()),
                sort_dedup_by(texts(contributor_ids@), text_lt()),
                ratification_threshold,
                confirmed_at,
            ) ==> res == Err::<GrimoireRecord, GrimoireError>(GrimoireError::Invalid),
            grimoire_shape_parts(
                1,
                community_id@,
                knowledge_cid@,
                rationale_cid@,
                sort_dedup_by(texts(alternative_cids@), text_lt()),
                sort_dedup_by(texts(exception_cids@), text_lt()),
                sort_dedup_by(texts(contributor_ids@), text_lt()),
                ratification_threshold,
                confirmed_at,
            ) ==> {
                &&& res is Ok <==> sort_dedup_by(ratifier_keys(ratifiers@), key_lt()).len()
                    >= ratification_threshold
                &&& res is Err ==> res == Err::<GrimoireRecord, GrimoireError>(
                    GrimoireError::Ratification,
                )
            },
            res matches Ok(r) ==> {
                &&& r.record_version == 1
                &&& r.community_id == community_id
                &&& r.knowledge_cid == knowledge_cid
                &&& r.rationale_cid == rationale_cid
                &&& texts(r.alternative_cids@) == sort_dedup_by(texts(alternative_cids@), text_lt())
                &&& texts(r.exception_cids@) == sort_dedup_by(texts(exception_cids@), text_lt())
                &&& texts(r.contributor_ids@) == sort_dedup_by(texts(contributor_ids@), text_lt())
                &&& r.supersedes == supersedes
                &&& r.ratification_threshold == ratification_threshold
                &&& r.confirmed_at == confirmed_at
                &&& r.record_id@ == grimoire_id_spec(&r)
                &&& rat_keys(r.ratifications@) == sort_dedup_by(
                    ratifier_keys(ratifiers@),
                    key_lt(),
                )
                &&& forall|q: int|
                    0 <= q < r.ratifications@.len() ==> signed_by_first(
                        ratifier_seeds(ratifiers@),
                        (#[trigger] r.ratifications@[q]).ratifier_public_key@,
                        r.ratifications@[q].signature@,
                        grimoire_canonical_spec(&r),
                    )
                &&& grimoire_verify_outcome(&r) is Ok
            },
    {
        let alternatives = sort_dedup_strings(&alternative_cids);
        let exceptions = sort_dedup_strings(&exception_cids);
        let contributors = sort_dedup_strings(&contributor_ids);
        let mut record = GrimoireRecord {
            record_version: 1,
            record_id: String::new(),
            community_id,
            knowledge_cid,
            rationale_cid,
            alternative_cids: alternatives,
            exception_cids: exceptions,
            contributor_ids: contributors,
            supersedes,
            ratification_threshold,
            ratifications: Vec::new(),
            confirmed_at,
        };
        match record.validate_shape() {
            Err(e) => {
                return Err(e);
            },
            Ok(_) => {},
        }
        let identity = record.identity_bytes();
        record.record_id = prefixed_digest("gri_", &identity);
        let message = record.canonical_bytes();
        let ghost msg = message@;
        let ghost seeds = ratifier_seeds(ratifiers@);
        let ghost keys = ratifier_keys(ratifiers@);
        let mut rats: Vec<Ratification> = Vec::new();
        let mut i: usize = 0;
        while i < ratifiers.len()
            invariant
                0 <= i <= ratifiers@.len(),
                seeds == ratifier_seeds(ratifiers@),
                keys == ratifier_keys(ratifiers@),
                message@ == msg,
                rat_keys(rats@) == sort_dedup_by(keys.take(i as int), key_lt()),
                adjacent_sorted(rat_keys(rats@), key_lt()),
                forall|k: int| 0 <= k < i ==> rat_keys(rats@).contains(#[trigger] keys[k]),
                forall|q: int|
                    0 <= q < rats@.len() ==> signature_accepted(
                        (#[trigger] rats@[q]).ratifier_public_key@,
                        msg,
                        rats@[q].signature@,
                    ) && signed_by_first(
                        seeds,
                        rats@[q].ratifier_public_key@,
                        rats@[q].signature@,
                        msg,
                    ),
            decreases ratifiers@.len() - i,
        {
            let ratifier = ratifiers[i];
            let key = ratifier.public_key();
            proof {
                assert(keys[i as int] == key@);
                assert(seeds[i as int] == ratifier.seed());
                assert(keys.take(i + 1).drop_last() =~= keys.take(i as int));
                assert(keys.take(i + 1).last() == key@);
            }
            if !has_key(&rats, &key) {
                let signature = ratifier.sign(&message);
                let mut sig: Vec<u8> = Vec::new();
                push_bytes(&mut sig, &signature);
                let j = key_position(&rats, &key);
                let ghost before = rats@;
                let ghost rk = rat_keys(before);
                proof {
                    lemma_insert_by_at(rk, key@, key_lt(), j as int);
                    if j > 0 {
                        assert(!bytes_lt(key@, rk[j - 1]));
                        assert(rk[j - 1] != key@);
                        lemma_lt_total(rk[j - 1], key@);
                    }
                    lemma_insert_keeps_adjacent(rk, key@, key_lt(), j as int);
                    assert forall|k: int| 0 <= k < i implies #[trigger] keys[k] != key@ by {
                        if keys[k] == key@ {
                            assert(rk.contains(keys[k]));
                        }
                    }
                    assert(signed_by_first(seeds, key@, sig@, msg)) by {
                        assert(ed25519_public_key_of(seeds[i as int]) == key@);
                        assert forall|k: int| 0 <= k < i implies ed25519_public_key_of(
                            #[trigger] seeds[k],
                        ) != key@ by {
                            assert(keys[k] == ed25519_public_key_of(seeds[k]));
                        }
                    }
                }
                rats.insert(j, Ratification { ratifier_public_key: key, signature: sig });
                proof {
                    let nk = rat_keys(rats@);
                    assert(nk =~= rk.take(j as int).push(key@) + rk.skip(j as int));
                    assert forall|k: int| 0 <= k < i + 1 implies nk.contains(#[trigger] keys[k]) by {
                        if k < i {
                            let p = choose|p: int| 0 <= p < rk.len() && rk[p] == keys[k];
                            if p < j {
                                assert(nk[p] == rk[p]);
                            } else {
                                assert(nk[p + 1] == rk[p]);
                            }
                        } else {
                            assert(nk[j as int] == key@);
                        }
                    }
                    assert forall|q: int| 0 <= q < rats@.len() implies signature_accepted(
                        (#[trigger] rats@[q]).ratifier_public_key@,
                        msg,
                        rats@[q].signature@,
                    ) && signed_by_first(
                        seeds,
                        rats@[q].ratifier_public_key@,
                        rats@[q].signature@,
                        msg,
                    ) by {
                        if q < j {
                            assert(rats@[q] == before[q]);
                        } else if q > j {
                            assert(rats@[q] == before[q - 1]);
                        }
                    }
                }
            } else {
                proof {
                    assert forall|k: int| 0 <= k < i + 1 implies rat_keys(rats@).contains(
                        #[trigger] keys[k],
                    ) by {
                        if k == i {
                            assert(keys[k] == key@);
                        }
                    }
                }
            }
            i = i + 1;
        }
        proof {
            assert(keys.take(ratifiers@.len() as int) =~= keys);
            lemma_outcome_all_accepted(rats@, msg);
        }
        record.ratifications = rats;
        match record.verify() {
            Err(e) => {
                return Err(e);
            },
            Ok(_) => {},
        }
        Ok(record)
    }
}

/// Keys that strictly increase from each to the next are all distinct.
pub proof fn lemma_adjacent_keys_distinct(s: Seq<Seq<u8>>, i: int, j: int)
    requires
        adjacent_sorted(s, key_lt()),
        0 <= i < j < s.len(),
    ensures
        bytes_lt(s[i], s[j]),
    decreases j - i,
{
    if j == i + 1 {
        assert((key_lt())(s[i], s[i + 1]));
    } else {
        lemma_adjacent_keys_distinct(s, i, j - 1);
        assert((key_lt())(s[j - 1], s[j]));
        lemma_lt_transitive(s[i], s[j - 1], s[j]);
    }
}

/// One member cannot ratify twice: a record in which two ratifications carry
/// the same public key never verifies.
pub proof fn law_repeated_ratifier_never_verifies(r: &GrimoireRecord, i: int, j: int)
    requires
        0 <= i < j < r.ratifications@.len(),
        r.ratifications@[i].ratifier_public_key@ == r.ratifications@[j].ratifier_public_key@,
    ensures
        grimoire_verify_outcome(r) is Err,
{
    if adjacent_sorted(rat_keys(r.ratifications@), key_lt()) {
        lemma_adjacent_keys_distinct(rat_keys(r.ratifications@), i, j);
        lemma_lt_irreflexive(r.ratifications@[i].ratifier_public_key@);
    }
}

} // verus!
