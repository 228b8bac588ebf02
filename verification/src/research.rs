//! Research records: signed, content-addressed steps of a project that
//! point to their causal parents.
use vstd::prelude::*;
use crate::text::{utf8, field, be_bytes, be_i64, hex_chars, is_cid, is_cid_bytes, push_field,
    push_be, push_i64, push_bytes, str_equal};
use crate::order::{sort_dedup_by, adjacent_sorted, text_lt, texts, sort_dedup_strings,
    strings_strictly_increasing};
use crate::hashing::blake3_digest;
use crate::identity::{Identity, IdentityError, signature_outcome, verify_signature,
    prefixed_digest, text_fields, push_text_fields};
use crate::signing::{ed25519_public_key_of, ed25519_signature_of, ed25519_verifies,
    ed25519_key_decodes};

verus! {

/// What a research record is.
#[derive(Clone, Copy, Debug, PartialEq, Eq)]
pub enum ResearchRecordKind {
    Hypothesis,
    Dataset,
    Experiment,
    Analysis,
    Failure,
    Decision,
    Claim,
    Reproduction,
    Correction,
    Retraction,
}

impl ResearchRecordKind {
    /// The variant's name, as `{:?}` prints it.
    pub open spec fn debug_name(self) -> Seq<char> {
        match self {
            ResearchRecordKind::Hypothesis => "Hypothesis"@,
            ResearchRecordKind::Dataset => "Dataset"@,
            ResearchRecordKind::Experiment => "Experiment"@,
            ResearchRecordKind::Analysis => "Analysis"@,
            ResearchRecordKind::Failure => "Failure"@,
            ResearchRecordKind::Decision => "Decision"@,
            ResearchRecordKind::Claim => "Claim"@,
            ResearchRecordKind::Reproduction => "Reproduction"@,
            ResearchRecordKind::Correction => "Correction"@,
            ResearchRecordKind::Retraction => "Retraction"@,
        }
    }

    /// The variant's name, as `{:?}` prints it.
    pub fn name(&self) -> (res: &'static str)
        ensures
            res@ == self.debug_name(),
    {
        match self {
            ResearchRecordKind::Hypothesis => "Hypothesis",
            ResearchRecordKind::Dataset => "Dataset",
            ResearchRecordKind::Experiment => "Experiment",
            ResearchRecordKind::Analysis => "Analysis",
            ResearchRecordKind::Failure => "Failure",
            ResearchRecordKind::Decision => "Decision",
            ResearchRecordKind::Claim => "Claim",
            ResearchRecordKind::Reproduction => "Reproduction",
            ResearchRecordKind::Correction => "Correction",
            ResearchRecordKind::Retraction => "Retraction",
        }
    }
}

/// A signed research record.
#[derive(Debug)]
pub struct ResearchRecord {
    pub record_version: u16,
    pub record_id: String,
    pub project_id: String,
    pub kind: ResearchRecordKind,
    pub parent_ids: Vec<String>,
    pub content_cid: String,
    pub author_public_key: [u8; 32],
    pub created_at: i64,
    pub signature: Vec<u8>,
}

/// Why a research record was refused.
#[derive(Debug)]
pub enum ResearchError {
    Invalid,
    ParentOrder,
    MissingTarget,
    Signature(IdentityError),
}

/// The shape check over the fields it reads.
pub open spec fn research_shape_parts(
    version: u16,
    project_id: Seq<char>,
    created_at: i64,
    content_cid: Seq<char>,
    parents: Seq<Seq<char>>,
    kind: ResearchRecordKind,
) -> Result<(), ResearchError> {
    if version != 1 || project_id.len() == 0 || created_at < 0 || !is_cid_bytes(utf8(content_cid)) {
        Err(ResearchError::Invalid)
    } else if !adjacent_sorted(parents, text_lt()) {
        Err(ResearchError::ParentOrder)
    } else if (kind == ResearchRecordKind::Correction || kind == ResearchRecordKind::Retraction)
        && parents.len() == 0 {
        Err(ResearchError::MissingTarget)
    } else {
        Ok(())
    }
}

/// What `validate_shape` answers.
pub open spec fn research_shape(r: &ResearchRecord) -> Result<(), ResearchError> {
    research_shape_parts(
        r.record_version,
        r.project_id@,
        r.created_at,
        r.content_cid@,
        texts(r.parent_ids@),
        r.kind,
    )
}

/// The bytes whose digest is the record id.
pub open spec fn research_identity_spec(r: &ResearchRecord) -> Seq<u8> {
    field(utf8("acm.research-record.v1"@)) + be_bytes(r.record_version as nat, 2) + field(
        utf8(r.project_id@),
    ) + field(utf8(r.kind.debug_name())) + be_bytes(r.parent_ids@.len(), 4) + text_fields(
        texts(r.parent_ids@),
    ) + field(utf8(r.content_cid@)) + field(r.author_public_key@) + be_i64(r.created_at)
}

/// The bytes the author signs.
pub open spec fn research_canonical_spec(r: &ResearchRecord) -> Seq<u8> {
    research_identity_spec(r) + field(utf8(r.record_id@))
}

/// The id a record must carry.
pub open spec fn research_id_spec(r: &ResearchRecord) -> Seq<char> {
    "res_"@ + hex_chars(blake3_digest(research_identity_spec(r)))
}

/// What `verify` answers.
pub open spec fn research_verify_outcome(r: &ResearchRecord) -> Result<(), ResearchError> {
    match research_shape(r) {
        Err(e) => Err(e),
        Ok(_) => if r.record_id@ != research_id_spec(r) {
            Err(ResearchError::Invalid)
        } else {
            match signature_outcome(r.author_public_key@, research_canonical_spec(r), r.signature@) {
                Err(e) => Err(ResearchError::Signature(e)),
                Ok(_) => Ok(()),
            }
        },
    }
}

impl ResearchRecord {
    /// The record's shape.
    pub fn validate_shape(&self) -> (res: Result<(), ResearchError>)
        ensures
            res == research_shape(self),
    {
        if self.record_version != 1 || self.project_id.as_str().is_empty() || self.created_at < 0
            || !is_cid(self.content_cid.as_str()) {
            return Err(ResearchError::Invalid);
        }
        if !strings_strictly_increasing(&self.parent_ids) {
            return Err(ResearchError::ParentOrder);
        }
        let target_kind = match self.kind {
            ResearchRecordKind::Correction => true,
            ResearchRecordKind::Retraction => true,
            _ => false,
        };
        if target_kind && self.parent_ids.len() == 0 {
            return Err(ResearchError::MissingTarget);
        }
        Ok(())
    }

    /// The bytes whose digest is the record id.
    pub fn identity_bytes(&self) -> (res: Vec<u8>)
        ensures
            res@ == research_identity_spec(self),
    {
        let mut out: Vec<u8> = Vec::new();
        push_field(&mut out, "acm.research-record.v1".as_bytes());
        push_be(&mut out, self.record_version as u64, 2);
        push_field(&mut out, self.project_id.as_str().as_bytes());
        push_field(&mut out, self.kind.name().as_bytes());
        push_text_fields(&mut out, &self.parent_ids);
        push_field(&mut out, self.content_cid.as_str().as_bytes());
        push_field(&mut out, &self.author_public_key);
        push_i64(&mut out, self.created_at);
        assert(out@ =~= research_identity_spec(self));
        out
    }

    /// The bytes the author signs.
    pub fn canonical_bytes(&self) -> (res: Vec<u8>)
        ensures
            res@ == research_canonical_spec(self),
    {
        let mut out = self.identity_bytes();
        push_field(&mut out, self.record_id.as_str().as_bytes());
        out
    }

    /// Issues a record: parents sorted without repetition, shape checked, id
    /// derived from the identity bytes, signed by the author.
    pub fn issue(
        project_id: String,
        kind: ResearchRecordKind,
        parent_ids: Vec<String>,
        content_cid: String,
        created_at: i64,
        author: &Identity,
    ) -> (res: Result<Self, ResearchError>)
        ensures
            match research_shape_parts(
                1,
                project_id@,
                created_at,
                content_cid@,
                sort_dedup_by(texts(parent_ids@), text_lt()),
                kind,
            ) {
                Err(e) => res == Err::<ResearchRecord, ResearchError>(e),
                Ok(_) => res matches Ok(r) && {
                    &&& r.record_version == 1
                    &&& r.project_id == project_id
                    &&& r.kind == kind
                    &&& texts(r.parent_ids@) == sort_dedup_by(texts(parent_ids@), text_lt())
                    &&& r.content_cid == content_cid
                    &&& r.created_at == created_at
                    &&& r.author_public_key@ == ed25519_public_key_of(author.seed())
                    &&& ed25519_key_decodes(r.author_public_key@)
                    &&& r.record_id@ == research_id_spec(&r)
                    &&& r.signature@ == ed25519_signature_of(
                        author.seed(),
                        research_canonical_spec(&r),
                    )
                    &&& r.signature@.len() == 64
                    &&& ed25519_verifies(
                        r.author_public_key@,
                        research_canonical_spec(&r),
                        r.signature@,
                    )
                },
            },
    {
        let parents = sort_dedup_strings(&parent_ids);
        let mut record = ResearchRecord {
            record_version: 1,
            record_id: String::new(),
            project_id,
            kind,
            parent_ids: parents,
            content_cid,
            author_public_key: author.public_key(),
            created_at,
            signature: Vec::new(),
        };
        match record.validate_shape() {
            Err(e) => {
                return Err(e);
            },
            Ok(_) => {},
        }
        let identity = record.identity_bytes();
        record.record_id = prefixed_digest("res_", &identity);
        let canonical = record.canonical_bytes();
        let signature = author.sign(&canonical);
        let mut sig: Vec<u8> = Vec::new();
        push_bytes(&mut sig, &signature);
        record.signature = sig;
        Ok(record)
    }

    /// Checks shape, id and the author's signature.
    pub fn verify(&self) -> (res: Result<(), ResearchError>)
        ensures
            res == research_verify_outcome(self),
    {
        match self.validate_shape() {
            Err(e) => {
                return Err(e);
            },
            Ok(_) => {},
        }
        let identity = self.identity_bytes();
        let expected = prefixed_digest("res_", &identity);
        if !str_equal(self.record_id.as_str(), expected.as_str()) {
            return Err(ResearchError::Invalid);
        }
        let canonical = self.canonical_bytes();
        match verify_signature(&self.author_public_key, &canonical, self.signature.as_slice()) {
            Err(e) => Err(ResearchError::Signature(e)),
            Ok(_) => Ok(()),
        }
    }
}

/// A record that `issue` returns verifies.
pub proof fn law_issued_research_verifies(r: &ResearchRecord)
    requires
        research_shape(r) is Ok,
        r.record_id@ == research_id_spec(r),
        r.signature@.len() == 64,
        ed25519_key_decodes(r.author_public_key@),
        ed25519_verifies(r.author_public_key@, research_canonical_spec(r), r.signature@),
    ensures
        research_verify_outcome(r) is Ok,
{
}

} // verus!
