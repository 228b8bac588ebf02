//! Pensive memory: provenance-tagged entries and scoped, counted,
//! time-bounded grants of access to them.
use vstd::prelude::*;
use crate::text::{utf8, is_cid, is_cid_bytes, str_equal, hex_chars};
use crate::json::{json_text, json_opt_text, json_int, dec, push_json_str, push_json_opt_str,
    push_json_i64, push_dec};
use crate::order::{texts, contains_str};
use crate::hashing::blake3_digest;
use crate::identity::prefixed_digest;
use crate::legacy::opt_text;

verus! {

/// Where a memory comes from.
#[derive(Clone, Copy, Debug, PartialEq, Eq)]
pub enum MemoryProvenance {
    HumanStatement,
    AiInference,
    ExternalDocument,
    CommunityDecision,
}

/// The standing of a memory.
#[derive(Clone, Copy, Debug, PartialEq, Eq)]
pub enum MemoryStatus {
    Active,
    Disputed,
    Superseded,
    Withdrawn,
}

impl MemoryProvenance {
    /// The snake_case name the wire format uses.
    pub open spec fn wire_name(self) -> Seq<char> {
        match self {
            MemoryProvenance::HumanStatement => "human_statement"@,
            MemoryProvenance::AiInference => "ai_inference"@,
            MemoryProvenance::ExternalDocument => "external_document"@,
            MemoryProvenance::CommunityDecision => "community_decision"@,
        }
    }

    /// The snake_case name the wire format uses.
    pub fn name(&self) -> (res: &'static str)
        ensures
            res@ == self.wire_name(),
    {
        match self {
            MemoryProvenance::HumanStatement => "human_statement",
            MemoryProvenance::AiInference => "ai_inference",
            MemoryProvenance::ExternalDocument => "external_document",
            MemoryProvenance::CommunityDecision => "community_decision",
        }
    }
}

impl MemoryStatus {
    /// The snake_case name the wire format uses.
    pub open spec fn wire_name(self) -> Seq<char> {
        match self {
            MemoryStatus::Active => "active"@,
            MemoryStatus::Disputed => "disputed"@,
            MemoryStatus::Superseded => "superseded"@,
            MemoryStatus::Withdrawn => "withdrawn"@,
        }
    }

    /// The snake_case name the wire format uses.
    pub fn name(&self) -> (res: &'static str)
        ensures
            res@ == self.wire_name(),
    {
        match self {
            MemoryStatus::Active => "active",
            MemoryStatus::Disputed => "disputed",
            MemoryStatus::Superseded => "superseded",
            MemoryStatus::Withdrawn => "withdrawn",
        }
    }
}

/// One memory.
#[derive(Debug)]
pub struct MemoryEntry {
    pub entry_id: String,
    pub domain: String,
    pub content_cid: String,
    pub provenance: MemoryProvenance,
    pub confidence_basis_points: u16,
    pub status: MemoryStatus,
    pub supersedes: Option<String>,
    pub created_at: i64,
}

/// A grant of access to memories.
#[derive(Debug)]
pub struct MemoryGrant {
    pub grantee_id: String,
    pub domains: Vec<String>,
    pub purpose: String,
    pub max_reads: u32,
    pub writes_allowed: bool,
    pub expires_at: i64,
}

/// Why memory access or an entry was refused.
#[derive(Debug)]
pub enum MemoryError {
    Invalid,
    Denied,
}

/// What `MemoryGrant::authorize` answers.
pub open spec fn grant_outcome(
    g: &MemoryGrant,
    domain: Seq<char>,
    purpose: Seq<char>,
    reads: u32,
    write: bool,
    now: i64,
) -> Result<(), MemoryError> {
    if g.grantee_id@.len() == 0 || g.domains@.len() == 0 || g.max_reads == 0 || g.expires_at < 0 {
        Err(MemoryError::Invalid)
    } else if !texts(g.domains@).contains(domain) || g.purpose@ != purpose || reads >= g.max_reads
        || (write && !g.writes_allowed) || now > g.expires_at {
        Err(MemoryError::Denied)
    } else {
        Ok(())
    }
}

impl MemoryGrant {
    /// Whether the grant allows this access: a granted domain, the granted
    /// purpose, reads below the limit, writes only if allowed, not expired.
    pub fn authorize(&self, domain: &str, purpose: &str, reads: u32, write: bool, now: i64) -> (res:
        Result<(), MemoryError>)
        ensures
            res == grant_outcome(self, domain@, purpose@, reads, write, now),
    {
        if self.grantee_id.as_str().is_empty() || self.domains.len() == 0 || self.max_reads == 0
            || self.expires_at < 0 {
            return Err(MemoryError::Invalid);
        }
        if !contains_str(&self.domains, domain) || !str_equal(self.purpose.as_str(), purpose)
            || reads >= self.max_reads || (write && !self.writes_allowed) || now > self.expires_at {
            return Err(MemoryError::Denied);
        }
        Ok(())
    }
}

/// Whether the inputs make a valid memory entry.
pub open spec fn entry_valid(domain: Seq<char>, content_cid: Seq<char>, confidence: u16, created_at: i64) -> bool {
    domain.len() > 0 && is_cid_bytes(utf8(content_cid)) && confidence <= 10000 && created_at >= 0
}

/// The JSON tuple whose digest is the entry id.
pub open spec fn entry_id_bytes(
    domain: Seq<char>,
    content_cid: Seq<char>,
    provenance: MemoryProvenance,
    confidence: u16,
    status: MemoryStatus,
    supersedes: Option<Seq<char>>,
    created_at: i64,
) -> Seq<u8> {
    seq![91u8] + json_text(domain) + seq![44u8] + json_text(content_cid) + seq![44u8] + json_text(
        provenance.wire_name(),
    ) + seq![44u8] + dec(confidence as nat) + seq![44u8] + json_text(status.wire_name()) + seq![
        44u8,
    ] + json_opt_text(supersedes) + seq![44u8] + json_int(created_at as int) + seq![93u8]
}

impl MemoryEntry {
    /// A memory entry with its id derived from the JSON tuple of its fields.
    pub fn new(
        domain: String,
        content_cid: String,
        provenance: MemoryProvenance,
        confidence_basis_points: u16,
        status: MemoryStatus,
        supersedes: Option<String>,
        created_at: i64,
    ) -> (res: Result<Self, MemoryError>)
        ensures
            !entry_valid(domain@, content_cid@, confidence_basis_points, created_at) ==> res
                == Err::<MemoryEntry, MemoryError>(MemoryError::Invalid),
            entry_valid(domain@, content_cid@, confidence_basis_points, created_at) ==> (
            res matches Ok(e) && {
                &&& e.domain == domain
                &&& e.content_cid == content_cid
                &&& e.provenance == provenance
                &&& e.confidence_basis_points == confidence_basis_points
                &&& e.status == status
                &&& e.supersedes == supersedes
                &&& e.created_at == created_at
                &&& e.entry_id@ == "memr_"@ + hex_chars(
                    blake3_digest(
                        entry_id_bytes(
                            domain@,
                            content_cid@,
                            provenance,
                            confidence_basis_points,
                            status,
                            opt_text(supersedes),
                            created_at,
                        ),
                    ),
                )
            }),
    {
        if domain.as_str().is_empty() || !is_cid(content_cid.as_str()) || confidence_basis_points
            > 10000 || created_at < 0 {
            return Err(MemoryError::Invalid);
        }
        let mut bytes: Vec<u8> = Vec::new();
        bytes.push(91);
        push_json_str(&mut bytes, domain.as_str());
        bytes.push(44);
        push_json_str(&mut bytes, content_cid.as_str());
        bytes.push(44);
        push_json_str(&mut bytes, provenance.name());
        bytes.push(44);
        push_dec(&mut bytes, confidence_basis_points as u64);
        bytes.push(44);
        push_json_str(&mut bytes, status.name());
        bytes.push(44);
        push_json_opt_str(&mut bytes, &supersedes);
        bytes.push(44);
        push_json_i64(&mut bytes, created_at);
        bytes.push(93);
        assert(bytes@ =~= entry_id_bytes(
            domain@,
            content_cid@,
            provenance,
            confidence_basis_points,
            status,
            opt_text(supersedes),
            created_at,
        ));
        let entry_id = prefixed_digest("memr_", &bytes);
        Ok(MemoryEntry {
            entry_id,
            domain,
            content_cid,
            provenance,
            confidence_basis_points,
            status,
            supersedes,
            created_at,
        })
    }
}

} // verus!
