//! The local control plane of a community: members, nodes, objects and
//! their placements, vault catalog pointers, proposals and votes, storage
//! credit, single-use challenges, and an audit chain of everything done.
use vstd::prelude::*;
use crate::text::{utf8, is_cid, is_cid_bytes, push_str, str_equal, bytes_eq, hex, hex_chars};
use crate::json::{dec, json_int, push_dec, push_json_i64};
use crate::hashing::{blake3_digest, blake3_hash};
use crate::identity::{MembershipCredential, trusted_membership_outcome, signature_outcome,
    trusted_time_fits};
use crate::audit::{AuditEvent, chain_outcome, chain_upto, event_check, event_hash_spec, zero_hash,
    audit_root_spec, verify_chain, merkle_root, lemma_chain_ok_at, law_append_extends_chain};
use crate::credit::{CreditEntry, CreditError, CreditLedger, CreditReason, record_outcome,
    balance_fold};
use crate::table::{Keyed, keys_of, by_key, table_ok, has_key, lookup, find, insert, replace,
    lemma_lookup_at};
use crate::order::insert_by;
use crate::entropy::random_32;

verus! {

/// Why a control-plane operation was refused.
#[derive(Debug)]
pub enum ControlError {
    Conflict,
    NotFound,
    Unauthorized,
    InvalidSignature,
    Replay,
    State,
    Snapshot,
    Credit(CreditError),
}

/// The community itself.
#[derive(Clone, Debug)]
pub struct Community {
    pub community_id: String,
    pub name: String,
    pub root_public_key: [u8; 32],
    pub created_at: i64,
    pub policy_version: u32,
    pub status: String,
}

/// An approved member.
#[derive(Clone, Debug)]
pub struct Member {
    pub member_id: String,
    pub public_key: [u8; 32],
    pub roles: Vec<String>,
    pub status: String,
    pub credential: MembershipCredential,
}

/// A registered storage node.
#[derive(Clone, Debug)]
pub struct NodeRecord {
    pub node_id: String,
    pub owner_member_id: String,
    pub failure_domain: String,
    pub region: String,
    pub max_storage_bytes: u64,
    pub used_storage_bytes: u64,
    pub last_heartbeat_at: i64,
    pub status: String,
}

/// What an object holds.
#[derive(Clone, Copy, Debug, PartialEq, Eq, Structural)]
pub enum ObjectKind {
    DataChunk,
    EncryptedManifest,
    EncryptedCatalog,
}

/// A registered encrypted object.
#[derive(Clone, Debug)]
pub struct ObjectRecord {
    pub object_cid: String,
    pub ciphertext_size: u64,
    pub object_kind: ObjectKind,
    pub replica_target: u8,
    pub created_at: i64,
}

/// A replica of an object on a node.
#[derive(Clone, Debug)]
pub struct Placement {
    pub placement_id: String,
    pub object_cid: String,
    pub node_id: String,
    pub status: String,
    pub created_at: i64,
}

/// The owner-signed pointer to a vault's current catalog.
#[derive(Clone, Debug)]
pub struct CatalogPointer {
    pub vault_id: String,
    pub catalog_cid: String,
    pub version: u64,
    pub previous_cid: Option<String>,
    pub signed_at: i64,
    pub owner_signature: Vec<u8>,
}

/// A governance proposal.
#[derive(Clone, Debug)]
pub struct Proposal {
    pub proposal_id: String,
    pub title: String,
    pub body: String,
    pub created_by_member_id: String,
    pub opens_at: i64,
    pub closes_at: i64,
    pub quorum_percent: u8,
    pub threshold_percent: u8,
}

/// A member's choice on a proposal.
#[derive(Clone, Copy, Debug, PartialEq, Eq, Structural)]
pub enum VoteChoice {
    Yes,
    No,
    Abstain,
}

/// A member-signed vote.
#[derive(Clone, Debug)]
pub struct Vote {
    pub proposal_id: String,
    pub member_id: String,
    pub choice: VoteChoice,
    pub cast_at: i64,
    pub member_signature: Vec<u8>,
}

/// The tally of a proposal.
#[derive(Clone, Debug, PartialEq, Eq, Structural)]
pub struct VoteResult {
    pub yes: u64,
    pub no: u64,
    pub abstain: u64,
    pub eligible_members: u64,
}

/// A portable, hashed copy of the community's state and audit log.
#[derive(Clone, Debug)]
pub struct CommunitySnapshot {
    pub format_version: u16,
    pub community: Community,
    pub members: Vec<Member>,
    pub nodes: Vec<NodeRecord>,
    pub catalog_pointers: Vec<CatalogPointer>,
    pub audit_events: Vec<AuditEvent>,
    pub audit_root: String,
    pub snapshot_hash: String,
}

/// A single-use challenge.
#[derive(Debug)]
pub struct Challenge {
    pub value: String,
    pub expires_at: i64,
    pub consumed: bool,
}

/// A member's credit ledger.
pub struct MemberCredit {
    pub member_id: String,
    pub ledger: CreditLedger,
}

impl Keyed for Member {
    open spec fn key_of(&self) -> Seq<char> {
        self.member_id@
    }

    fn key(&self) -> (res: &str) {
        self.member_id.as_str()
    }
}

impl Keyed for NodeRecord {
    open spec fn key_of(&self) -> Seq<char> {
        self.node_id@
    }

    fn key(&self) -> (res: &str) {
        self.node_id.as_str()
    }
}

impl Keyed for ObjectRecord {
    open spec fn key_of(&self) -> Seq<char> {
        self.object_cid@
    }

    fn key(&self) -> (res: &str) {
        self.object_cid.as_str()
    }
}

impl Keyed for Placement {
    open spec fn key_of(&self) -> Seq<char> {
        self.placement_id@
    }

    fn key(&self) -> (res: &str) {
        self.placement_id.as_str()
    }
}

impl Keyed for CatalogPointer {
    open spec fn key_of(&self) -> Seq<char> {
        self.vault_id@
    }

    fn key(&self) -> (res: &str) {
        self.vault_id.as_str()
    }
}

impl Keyed for Proposal {
    open spec fn key_of(&self) -> Seq<char> {
        self.proposal_id@
    }

    fn key(&self) -> (res: &str) {
        self.proposal_id.as_str()
    }
}

impl Keyed for Challenge {
    open spec fn key_of(&self) -> Seq<char> {
        self.value@
    }

    fn key(&self) -> (res: &str) {
        self.value.as_str()
    }
}

impl Keyed for String {
    open spec fn key_of(&self) -> Seq<char> {
        self@
    }

    fn key(&self) -> (res: &str) {
        self.as_str()
    }
}

impl Keyed for MemberCredit {
    open spec fn key_of(&self) -> Seq<char> {
        self.member_id@
    }

    fn key(&self) -> (res: &str) {
        self.member_id.as_str()
    }
}

/// The state of a control plane.
pub struct ControlState {
    pub community: Community,
    pub members: Seq<Member>,
    pub nodes: Seq<NodeRecord>,
    pub objects: Seq<ObjectRecord>,
    pub placements: Seq<Placement>,
    pub pointers: Seq<CatalogPointer>,
    pub proposals: Seq<Proposal>,
    pub votes: Seq<Vote>,
    pub history: Seq<Vote>,
    pub challenges: Seq<Challenge>,
    pub nonces: Seq<String>,
    pub events: Seq<AuditEvent>,
    pub credits: Seq<MemberCredit>,
}

/// A community's control plane.
pub struct LocalControlPlane {
    community: Community,
    members: Vec<Member>,
    nodes: Vec<NodeRecord>,
    objects: Vec<ObjectRecord>,
    placements: Vec<Placement>,
    catalog_pointers: Vec<CatalogPointer>,
    proposals: Vec<Proposal>,
    votes: Vec<Vote>,
    vote_history: Vec<Vote>,
    challenges: Vec<Challenge>,
    replay_nonces: Vec<String>,
    audit_events: Vec<AuditEvent>,
    credits: Vec<MemberCredit>,
}

impl View for LocalControlPlane {
    type V = ControlState;

    closed spec fn view(&self) -> ControlState {
        ControlState {
            community: self.community,
            members: self.members@,
            nodes: self.nodes@,
            objects: self.objects@,
            placements: self.placements@,
            pointers: self.catalog_pointers@,
            proposals: self.proposals@,
            votes: self.votes@,
            history: self.vote_history@,
            challenges: self.challenges@,
            nonces: self.replay_nonces@,
            events: self.audit_events@,
            credits: self.credits@,
        }
    }
}

/// A vote's key: its proposal and its member.
pub open spec fn same_ballot(a: Vote, b: Vote) -> bool {
    a.proposal_id@ == b.proposal_id@ && a.member_id@ == b.member_id@
}

/// Each member has at most one standing vote per proposal.
pub open spec fn ballots_unique(s: Seq<Vote>) -> bool {
    forall|i: int, j: int| 0 <= i < j < s.len() ==> !same_ballot(#[trigger] s[i], #[trigger] s[j])
}

/// Every ledger has non-empty unique keys.
pub open spec fn ledgers_ok(s: Seq<MemberCredit>) -> bool {
    forall|i: int| 0 <= i < s.len() ==> (#[trigger] s[i]).ledger.well_formed()
}

/// The invariant every control plane keeps.
pub open spec fn state_ok(s: ControlState) -> bool {
    &&& table_ok(s.members)
    &&& table_ok(s.nodes)
    &&& table_ok(s.objects)
    &&& table_ok(s.placements)
    &&& table_ok(s.pointers)
    &&& table_ok(s.proposals)
    &&& table_ok(s.challenges)
    &&& table_ok(s.nonces)
    &&& table_ok(s.credits)
    &&& ballots_unique(s.votes)
    &&& ledgers_ok(s.credits)
    &&& s.events.len() > 0
    &&& chain_outcome(s.events) is Ok
    &&& placements_sound(s)
}

/// Every placement names a registered object and a registered node, and no
/// two placements are both healthy copies of one object on one node.
pub open spec fn placements_sound(s: ControlState) -> bool {
    &&& forall|p: Placement|
        #[trigger] s.placements.contains(p) ==> has_key(s.objects, p.object_cid@) && has_key(
            s.nodes,
            p.node_id@,
        )
    &&& forall|p: Placement, q: Placement|
        #[trigger] s.placements.contains(p) && #[trigger] s.placements.contains(q) && p != q
            && p.status@ == "healthy"@ && q.status@ == "healthy"@ ==> !(p.object_cid@
            == q.object_cid@ && p.node_id@ == q.node_id@)
}

/// What an ordered insertion holds: the new element and the old ones.
proof fn lemma_insert_by_contains<A>(s: Seq<A>, x: A, lt: spec_fn(A, A) -> bool)
    ensures
        forall|y: A| #[trigger] insert_by(s, x, lt).contains(y) <==> (y == x || s.contains(y)),
    decreases s.len(),
{
    if s.len() == 0 {
        assert forall|y: A| #[trigger] insert_by(s, x, lt).contains(y) <==> (y == x || s.contains(y)) by {
            if insert_by(s, x, lt).contains(y) {
                assert(insert_by(s, x, lt)[0] == y);
            } else {
                assert(insert_by(s, x, lt)[0] == x);
            }
        }
    } else if lt(x, s[0]) {
        let t = seq![x] + s;
        assert forall|y: A| #[trigger] insert_by(s, x, lt).contains(y) <==> (y == x || s.contains(y)) by {
            if t.contains(y) {
                let i = choose|i: int| 0 <= i < t.len() && t[i] == y;
                if i > 0 {
                    assert(s[i - 1] == y);
                }
            }
            if y == x {
                assert(t[0] == x);
            }
            if s.contains(y) {
                let i = choose|i: int| 0 <= i < s.len() && s[i] == y;
                assert(t[i + 1] == y);
            }
        }
    } else {
        let r = s.drop_first();
        lemma_insert_by_contains(r, x, lt);
        let t = seq![s[0]] + insert_by(r, x, lt);
        assert forall|y: A| #[trigger] insert_by(s, x, lt).contains(y) <==> (y == x || s.contains(y)) by {
            if t.contains(y) {
                let i = choose|i: int| 0 <= i < t.len() && t[i] == y;
                if i == 0 {
                    assert(s[0] == y);
                } else {
                    assert(insert_by(r, x, lt)[i - 1] == y);
                    assert(insert_by(r, x, lt).contains(y));
                    if r.contains(y) {
                        let k = choose|k: int| 0 <= k < r.len() && r[k] == y;
                        assert(s[k + 1] == y);
                    }
                }
            }
            if y == x || s.contains(y) {
                if y != x {
                    let k = choose|k: int| 0 <= k < s.len() && s[k] == y;
                    if k == 0 {
                        assert(t[0] == y);
                    } else {
                        assert(r[k - 1] == y);
                    }
                }
                if y == x || (s.contains(y) && y != s[0]) {
                    if y != x {
                        let k = choose|k: int| 0 <= k < s.len() && s[k] == y;
                        assert(r[k - 1] == y);
                    }
                    assert(insert_by(r, x, lt).contains(y));
                    let j = choose|j: int| 0 <= j < insert_by(r, x, lt).len() && insert_by(r, x, lt)[j] == y;
                    assert(t[j + 1] == y);
                } else {
                    assert(t[0] == y);
                }
            }
        }
    }
}

/// A key some record has is still had after an ordered insertion.
proof fn lemma_insert_keeps_key<T: Keyed>(s: Seq<T>, x: T, k: Seq<char>)
    requires
        has_key(s, k),
    ensures
        has_key(insert_by(s, x, by_key()), k),
{
    let i = choose|i: int| 0 <= i < keys_of(s).len() && keys_of(s)[i] == k;
    lemma_insert_by_contains(s, x, by_key());
    let t = insert_by(s, x, by_key());
    assert(s.contains(s[i]));
    assert(t.contains(s[i]));
    let j = choose|j: int| 0 <= j < t.len() && t[j] == s[i];
    assert(keys_of(t)[j] == k);
}

/// Registering a node or an object keeps the placements sound.
proof fn lemma_registry_growth_keeps_sound(s: ControlState, t: ControlState)
    requires
        placements_sound(s),
        t.placements == s.placements,
        forall|k: Seq<char>| has_key(s.objects, k) ==> #[trigger] has_key(t.objects, k),
        forall|k: Seq<char>| has_key(s.nodes, k) ==> #[trigger] has_key(t.nodes, k),
    ensures
        placements_sound(t),
{
    assert forall|p: Placement| #[trigger] t.placements.contains(p) implies has_key(
        t.objects,
        p.object_cid@,
    ) && has_key(t.nodes, p.node_id@) by {
        assert(s.placements.contains(p));
    }
}

/// Inserting a new node keeps the placements sound.
proof fn lemma_node_insert_keeps_sound(s: ControlState, t: ControlState, n: NodeRecord)
    requires
        placements_sound(s),
        t.placements == s.placements,
        t.objects == s.objects,
        t.nodes == insert_by(s.nodes, n, by_key()),
    ensures
        placements_sound(t),
{
    assert forall|k: Seq<char>| has_key(s.nodes, k) implies #[trigger] has_key(t.nodes, k) by {
        lemma_insert_keeps_key(s.nodes, n, k);
    }
    lemma_registry_growth_keeps_sound(s, t);
}

/// Inserting a new object keeps the placements sound.
proof fn lemma_object_insert_keeps_sound(s: ControlState, t: ControlState, o: ObjectRecord)
    requires
        placements_sound(s),
        t.placements == s.placements,
        t.nodes == s.nodes,
        t.objects == insert_by(s.objects, o, by_key()),
    ensures
        placements_sound(t),
{
    assert forall|k: Seq<char>| has_key(s.objects, k) implies #[trigger] has_key(t.objects, k) by {
        lemma_insert_keeps_key(s.objects, o, k);
    }
    lemma_registry_growth_keeps_sound(s, t);
}

/// A placement that `add_placement` accepts keeps the placements sound.
proof fn lemma_placement_insert_keeps_sound(s: ControlState, t: ControlState, actor: Seq<char>, p: Placement)
    requires
        placements_sound(s),
        add_placement_outcome(s, actor, &p) is Ok,
        t.objects == s.objects,
        t.nodes == s.nodes,
        t.placements == insert_by(s.placements, p, by_key()),
    ensures
        placements_sound(t),
{
    lemma_insert_by_contains(s.placements, p, by_key());
    assert(!s.placements.contains(p)) by {
        if s.placements.contains(p) {
            let i = choose|i: int| 0 <= i < s.placements.len() && s.placements[i] == p;
            assert(keys_of(s.placements)[i] == p.placement_id@);
        }
    }
    assert forall|a: Placement, b: Placement|
        #[trigger] t.placements.contains(a) && #[trigger] t.placements.contains(b) && a != b
            && a.status@ == "healthy"@ && b.status@ == "healthy"@ implies !(a.object_cid@
        == b.object_cid@ && a.node_id@ == b.node_id@) by {
        if a == p && a.object_cid@ == b.object_cid@ && a.node_id@ == b.node_id@ {
            assert(s.placements.contains(b));
            let i = choose|i: int| 0 <= i < s.placements.len() && s.placements[i] == b;
            assert(healthy_duplicate(s.placements, &p));
        }
        if b == p && a.object_cid@ == b.object_cid@ && a.node_id@ == b.node_id@ {
            assert(s.placements.contains(a));
            let i = choose|i: int| 0 <= i < s.placements.len() && s.placements[i] == a;
            assert(healthy_duplicate(s.placements, &p));
        }
    }
}

/// In every state the control plane reaches, each placement names a
/// registered object and node, and one object has at most one healthy
/// placement on any node.
pub proof fn law_placements_stay_sound(cp: &LocalControlPlane)
    requires
        cp.wf(),
    ensures
        placements_sound(cp@),
{
}

/// The member with this id is present and active.
pub open spec fn is_active(s: ControlState, id: Seq<char>) -> bool {
    lookup(s.members, id) matches Some(m) && m.status@ == "active"@
}

/// `new` is `old` with one more event: the next number, linked to the last
/// event, carrying the given fields and its own hash.
pub open spec fn appended(
    old: Seq<AuditEvent>,
    new: Seq<AuditEvent>,
    now: i64,
    kind: Seq<char>,
    actor: Seq<char>,
    subject: Seq<char>,
) -> bool {
    &&& new.len() == old.len() + 1
    &&& new.drop_last() == old
    &&& new.last().sequence == old.len()
    &&& new.last().occurred_at == now
    &&& new.last().kind@ == kind
    &&& new.last().actor_id@ == actor
    &&& new.last().subject_id@ == subject
    &&& new.last().previous_hash@ == (if old.len() == 0 {
        zero_hash()
    } else {
        old.last().event_hash@
    })
    &&& new.last().event_hash@ == event_hash_spec(&new.last())
}

/// A member whose key and id agree with its credential.
pub open spec fn member_matches_credential(m: &Member) -> bool {
    m.public_key@ == m.credential.claims.member_public_key@ && m.member_id@
        == m.credential.claims.member_id@
}

/// The bytes the owner signs for a catalog pointer.
pub open spec fn pointer_signing_spec(p: &CatalogPointer) -> Seq<u8> {
    utf8("acm.catalog-pointer.v1|"@) + utf8(p.vault_id@) + seq![124u8] + utf8(p.catalog_cid@)
        + seq![124u8] + dec(p.version as nat) + seq![124u8] + (match p.previous_cid {
        Some(c) => utf8(c@),
        None => Seq::empty(),
    }) + seq![124u8] + json_int(p.signed_at as int)
}

/// The name `{:?}` prints for a choice.
pub open spec fn choice_name(c: VoteChoice) -> Seq<char> {
    match c {
        VoteChoice::Yes => "Yes"@,
        VoteChoice::No => "No"@,
        VoteChoice::Abstain => "Abstain"@,
    }
}

/// The bytes a member signs for a vote.
pub open spec fn vote_signing_spec(v: &Vote) -> Seq<u8> {
    utf8("acm.vote.v1|"@) + utf8(v.proposal_id@) + seq![124u8] + utf8(v.member_id@) + seq![124u8]
        + utf8(choice_name(v.choice)) + seq![124u8] + json_int(v.cast_at as int)
}

impl CatalogPointer {
    /// The bytes the owner signs.
    pub fn signing_bytes(&self) -> (res: Vec<u8>)
        ensures
            res@ == pointer_signing_spec(self),
    {
        let mut out: Vec<u8> = Vec::new();
        push_str(&mut out, "acm.catalog-pointer.v1|");
        push_str(&mut out, self.vault_id.as_str());
        out.push(124);
        push_str(&mut out, self.catalog_cid.as_str());
        out.push(124);
        push_dec(&mut out, self.version);
        out.push(124);
        match &self.previous_cid {
            Some(c) => push_str(&mut out, c.as_str()),
            None => {},
        }
        out.push(124);
        push_json_i64(&mut out, self.signed_at);
        assert(out@ =~= pointer_signing_spec(self));
        out
    }
}

impl VoteChoice {
    /// The name `{:?}` prints.
    pub fn name(&self) -> (res: &'static str)
        ensures
            res@ == choice_name(*self),
    {
        match self {
            VoteChoice::Yes => "Yes",
            VoteChoice::No => "No",
            VoteChoice::Abstain => "Abstain",
        }
    }
}

impl Vote {
    /// The bytes the member signs.
    pub fn signing_bytes(&self) -> (res: Vec<u8>)
        ensures
            res@ == vote_signing_spec(self),
    {
        let mut out: Vec<u8> = Vec::new();
        push_str(&mut out, "acm.vote.v1|");
        push_str(&mut out, self.proposal_id.as_str());
        out.push(124);
        push_str(&mut out, self.member_id.as_str());
        out.push(124);
        push_str(&mut out, self.choice.name());
        out.push(124);
        push_json_i64(&mut out, self.cast_at);
        assert(out@ =~= vote_signing_spec(self));
        out
    }

    /// A field-by-field copy.
    pub fn copy(&self) -> (res: Vote)
        ensures
            res.proposal_id@ == self.proposal_id@,
            res.member_id@ == self.member_id@,
            res.choice == self.choice,
            res.cast_at == self.cast_at,
            res.member_signature@ == self.member_signature@,
    {
        let mut signature: Vec<u8> = Vec::new();
        crate::text::push_bytes(&mut signature, self.member_signature.as_slice());
        Vote {
            proposal_id: self.proposal_id.clone(),
            member_id: self.member_id.clone(),
            choice: self.choice,
            cast_at: self.cast_at,
            member_signature: signature,
        }
    }
}

/// Members whose status is `active`.
pub open spec fn count_active(s: Seq<Member>) -> nat
    decreases s.len(),
{
    if s.len() == 0 {
        0
    } else {
        count_active(s.drop_last()) + if s.last().status@ == "active"@ {
            1nat
        } else {
            0nat
        }
    }
}

/// Standing votes on a proposal with the given choice.
pub open spec fn tally(s: Seq<Vote>, proposal: Seq<char>, choice: VoteChoice) -> nat
    decreases s.len(),
{
    if s.len() == 0 {
        0
    } else {
        tally(s.drop_last(), proposal, choice) + if s.last().proposal_id@ == proposal
            && s.last().choice == choice {
            1nat
        } else {
            0nat
        }
    }
}

/// What `bootstrap` refuses, if anything.
pub open spec fn bootstrap_outcome(community: &Community, founder: &Member) -> Result<(), ControlError> {
    if trusted_membership_outcome(
        &founder.credential,
        community.community_id@,
        community.root_public_key@,
        community.created_at as int,
        300,
    ) is Err {
        Err(ControlError::InvalidSignature)
    } else if !member_matches_credential(founder) || founder.credential.claims.issuer_public_key@
        != community.root_public_key@ {
        Err(ControlError::InvalidSignature)
    } else {
        Ok(())
    }
}

/// What `add_member` refuses, if anything.
pub open spec fn add_member_outcome(s: ControlState, member: &Member, now: i64) -> Result<
    (),
    ControlError,
> {
    if trusted_membership_outcome(
        &member.credential,
        s.community.community_id@,
        s.community.root_public_key@,
        now as int,
        300,
    ) is Err {
        Err(ControlError::InvalidSignature)
    } else if !member_matches_credential(member) || has_key(s.members, member.member_id@) {
        Err(ControlError::Conflict)
    } else {
        Ok(())
    }
}

/// What `register_node` refuses, if anything.
pub open spec fn register_node_outcome(s: ControlState, actor: Seq<char>, node: &NodeRecord) -> Result<
    (),
    ControlError,
> {
    if !is_active(s, actor) {
        Err(ControlError::Unauthorized)
    } else if node.owner_member_id@ != actor || node.max_storage_bytes == 0 || has_key(
        s.nodes,
        node.node_id@,
    ) {
        Err(ControlError::State)
    } else {
        Ok(())
    }
}

/// What `register_object` refuses, if anything.
pub open spec fn register_object_outcome(s: ControlState, actor: Seq<char>, object: &ObjectRecord) -> Result<
    (),
    ControlError,
> {
    if !is_active(s, actor) {
        Err(ControlError::Unauthorized)
    } else if !is_cid_bytes(utf8(object.object_cid@)) || object.ciphertext_size == 0 || has_key(
        s.objects,
        object.object_cid@,
    ) {
        Err(ControlError::State)
    } else {
        Ok(())
    }
}

/// A healthy placement of the object on the node already exists.
pub open spec fn healthy_duplicate(s: Seq<Placement>, p: &Placement) -> bool {
    exists|i: int|
        0 <= i < s.len() && (#[trigger] s[i]).object_cid@ == p.object_cid@ && s[i].node_id@
            == p.node_id@ && s[i].status@ == "healthy"@
}

/// What `add_placement` refuses, if anything.
pub open spec fn add_placement_outcome(s: ControlState, actor: Seq<char>, p: &Placement) -> Result<
    (),
    ControlError,
> {
    if !is_active(s, actor) {
        Err(ControlError::Unauthorized)
    } else if !has_key(s.objects, p.object_cid@) || !has_key(s.nodes, p.node_id@) || has_key(
        s.placements,
        p.placement_id@,
    ) || healthy_duplicate(s.placements, p) {
        Err(ControlError::State)
    } else {
        Ok(())
    }
}

/// Whether a pointer continues the vault's chain: version one more than the
/// current one and naming its catalog, or version one with no predecessor
/// for a new vault.
pub open spec fn pointer_continues(current: Option<CatalogPointer>, p: &CatalogPointer) -> bool {
    match current {
        Some(prev) => p.version == prev.version + 1 && (p.previous_cid matches Some(c) && c@
            == prev.catalog_cid@),
        None => p.version == 1 && p.previous_cid is None,
    }
}

/// What `update_catalog_pointer` refuses, if anything.
pub open spec fn pointer_outcome(s: ControlState, actor: Seq<char>, p: &CatalogPointer) -> Result<
    (),
    ControlError,
> {
    if !is_active(s, actor) {
        Err(ControlError::Unauthorized)
    } else if signature_outcome(
        lookup(s.members, actor)->0.credential.claims.member_public_key@,
        pointer_signing_spec(p),
        p.owner_signature@,
    ) is Err {
        Err(ControlError::InvalidSignature)
    } else if !pointer_continues(lookup(s.pointers, p.vault_id@), p) {
        Err(ControlError::State)
    } else {
        Ok(())
    }
}

/// The ledger of a member, or an empty one.
pub open spec fn ledger_entries(s: ControlState, member: Seq<char>) -> Seq<CreditEntry> {
    match lookup(s.credits, member) {
        Some(c) => c.ledger.entries_view(),
        None => Seq::empty(),
    }
}

/// What `record_credit` refuses, if anything.
pub open spec fn credit_outcome(s: ControlState, member: Seq<char>, entry: CreditEntry) -> Result<
    (),
    ControlError,
> {
    if !is_active(s, member) {
        Err(ControlError::Unauthorized)
    } else {
        match record_outcome(ledger_entries(s, member), entry) {
            Err(e) => Err(ControlError::Credit(e)),
            Ok(_) => Ok(()),
        }
    }
}

/// What `create_proposal` refuses, if anything.
pub open spec fn proposal_outcome(s: ControlState, p: &Proposal) -> Result<(), ControlError> {
    if !is_active(s, p.created_by_member_id@) {
        Err(ControlError::Unauthorized)
    } else if p.opens_at >= p.closes_at || p.quorum_percent > 100 || p.threshold_percent > 100
        || has_key(s.proposals, p.proposal_id@) {
        Err(ControlError::State)
    } else {
        Ok(())
    }
}

/// What `cast_vote` refuses, if anything.
pub open spec fn vote_outcome(s: ControlState, v: &Vote) -> Result<(), ControlError> {
    if !is_active(s, v.member_id@) {
        Err(ControlError::Unauthorized)
    } else if !has_key(s.proposals, v.proposal_id@) {
        Err(ControlError::NotFound)
    } else if v.cast_at < lookup(s.proposals, v.proposal_id@)->0.opens_at || v.cast_at > lookup(
        s.proposals,
        v.proposal_id@,
    )->0.closes_at {
        Err(ControlError::State)
    } else if signature_outcome(
        lookup(s.members, v.member_id@)->0.credential.claims.member_public_key@,
        vote_signing_spec(v),
        v.member_signature@,
    ) is Err {
        Err(ControlError::InvalidSignature)
    } else {
        Ok(())
    }
}

/// The standing votes after `v` is cast: it replaces the member's earlier
/// vote on the proposal, or joins the others.
pub open spec fn votes_after(s: Seq<Vote>, v: Vote) -> Seq<Vote> {
    if exists|i: int| 0 <= i < s.len() && same_ballot(#[trigger] s[i], v) {
        s.update(choose|i: int| 0 <= i < s.len() && same_ballot(#[trigger] s[i], v), v)
    } else {
        s.push(v)
    }
}

/// The index of the standing vote of `member` on `proposal`, if any.
fn find_vote(votes: &Vec<Vote>, proposal: &str, member: &str) -> (res: Option<usize>)
    ensures
        res matches Some(i) ==> i < votes@.len() && votes@[i as int].proposal_id@ == proposal@
            && votes@[i as int].member_id@ == member@,
        res is None ==> forall|k: int|
            0 <= k < votes@.len() ==> !((#[trigger] votes@[k]).proposal_id@ == proposal@
                && votes@[k].member_id@ == member@),
{
    let mut i: usize = 0;
    while i < votes.len()
        invariant
            0 <= i <= votes@.len(),
            forall|k: int|
                0 <= k < i ==> !((#[trigger] votes@[k]).proposal_id@ == proposal@
                    && votes@[k].member_id@ == member@),
        decreases votes@.len() - i,
    {
        if str_equal(votes[i].proposal_id.as_str(), proposal) && str_equal(
            votes[i].member_id.as_str(),
            member,
        ) {
            return Some(i);
        }
        i = i + 1;
    }
    None
}

/// Whether a string equals `active`.
fn is_active_status(status: &String) -> (res: bool)
    ensures
        res == (status@ == "active"@),
{
    str_equal(status.as_str(), "active")
}

/// The index of a member's ledger, adding an empty one when there is none.
fn ensure_ledger(credits: &mut Vec<MemberCredit>, member_id: &str) -> (i: usize)
    requires
        table_ok(old(credits)@),
        ledgers_ok(old(credits)@),
    ensures
        table_ok(final(credits)@),
        ledgers_ok(final(credits)@),
        i < final(credits)@.len(),
        final(credits)@[i as int].member_id@ == member_id@,
        lookup(final(credits)@, member_id@) == Some(final(credits)@[i as int]),
        final(credits)@[i as int].ledger.entries_view() == (match lookup(old(credits)@, member_id@) {
            Some(c) => c.ledger.entries_view(),
            None => Seq::empty(),
        }),
        forall|k: Seq<char>|
            k != member_id@ ==> #[trigger] lookup(final(credits)@, k) == lookup(old(credits)@, k),
{
    match find(credits, member_id) {
        Some(i) => {
            proof {
                lemma_lookup_at(credits@, i as int);
            }
            i
        },
        None => {
            let fresh = MemberCredit { member_id: member_id.to_owned(), ledger: CreditLedger::new() };
            let ghost before = credits@;
            let j = insert(credits, fresh);
            proof {
                assert forall|q: int| 0 <= q < credits@.len() implies (#[trigger] credits@[q]).ledger.well_formed() by {
                    if q < j {
                        assert(credits@[q] == before[q]);
                    } else if q > j {
                        assert(credits@[q] == before[q - 1]);
                    }
                }
            }
            match find(credits, member_id) {
                Some(i) => {
                    proof {
                        lemma_lookup_at(credits@, i as int);
                    }
                    i
                },
                None => {
                    proof {
                        assert(false);
                    }
                    0
                },
            }
        },
    }
}

/// Records an entry in the ledger at `i`.
fn ledger_record(credits: &mut Vec<MemberCredit>, i: usize, entry: CreditEntry) -> (res: Result<
    (),
    CreditError,
>)
    requires
        table_ok(old(credits)@),
        ledgers_ok(old(credits)@),
        i < old(credits)@.len(),
    ensures
        table_ok(final(credits)@),
        ledgers_ok(final(credits)@),
        final(credits)@.len() == old(credits)@.len(),
        keys_of(final(credits)@) == keys_of(old(credits)@),
        forall|j: int| 0 <= j < final(credits)@.len() && j != i ==> #[trigger] final(credits)@[j] == old(credits)@[j],
        final(credits)@[i as int].member_id@ == old(credits)@[i as int].member_id@,
        res == record_outcome(old(credits)@[i as int].ledger.entries_view(), entry),
        final(credits)@[i as int].ledger.entries_view() == (if res is Ok {
            old(credits)@[i as int].ledger.entries_view().push(entry)
        } else {
            old(credits)@[i as int].ledger.entries_view()
        }),
{
    let ghost before = credits@;
    let mut taken = credits.remove(i);
    assert(taken == before[i as int]);
    assert(taken.ledger.well_formed());
    let recorded = taken.ledger.record(entry);
    credits.insert(i, taken);
    proof {
        assert(credits@ =~= before.update(i as int, credits@[i as int]));
        assert(keys_of(credits@) =~= keys_of(before));
        assert forall|j: int| 0 <= j < credits@.len() implies (#[trigger] credits@[j]).ledger.well_formed() by {
            if j != i {
                assert(credits@[j] == before[j]);
            }
        }
    }
    recorded
}

impl LocalControlPlane {
    /// The invariant.
    pub open spec fn wf(&self) -> bool {
        state_ok(self@)
    }

    /// Founds the control plane: the founder's credential must be issued by
    /// the community root for this community at its creation time, and match
    /// the founder.
    pub fn bootstrap(community: Community, founder: Member) -> (res: Result<Self, ControlError>)
        requires
            trusted_time_fits(
                &founder.credential,
                community.community_id@,
                community.root_public_key@,
                community.created_at as int,
                300,
            ),
        ensures
            res is Err <==> bootstrap_outcome(&community, &founder) is Err,
            res matches Err(e) ==> bootstrap_outcome(&community, &founder) == Err::<(), ControlError>(e),
            res matches Ok(c) ==> {
                &&& c.wf()
                &&& c@.community == community
                &&& c@.members == seq![founder]
                &&& c@.nodes.len() == 0 && c@.objects.len() == 0 && c@.placements.len() == 0
                &&& c@.pointers.len() == 0 && c@.proposals.len() == 0 && c@.votes.len() == 0
                &&& c@.history.len() == 0 && c@.challenges.len() == 0 && c@.nonces.len() == 0
                &&& c@.credits.len() == 0
                &&& appended(
                    Seq::empty(),
                    c@.events,
                    community.created_at,
                    "community_created"@,
                    founder.member_id@,
                    community.community_id@,
                )
            },
    {
        match founder.credential.verify_trusted(
            community.community_id.as_str(),
            &community.root_public_key,
            community.created_at,
            300,
        ) {
            Err(_) => {
                return Err(ControlError::InvalidSignature);
            },
            Ok(_) => {},
        }
        if !bytes_eq(&founder.public_key, &founder.credential.claims.member_public_key)
            || !str_equal(founder.member_id.as_str(), founder.credential.claims.member_id.as_str())
            || !bytes_eq(&founder.credential.claims.issuer_public_key, &community.root_public_key) {
            return Err(ControlError::InvalidSignature);
        }
        let first = AuditEvent::append(
            None,
            community.created_at,
            "community_created".to_owned(),
            founder.member_id.clone(),
            community.community_id.clone(),
        );
        let mut members: Vec<Member> = Vec::new();
        members.push(founder);
        let mut audit_events: Vec<AuditEvent> = Vec::new();
        audit_events.push(first);
        let control = LocalControlPlane {
            community,
            members,
            nodes: Vec::new(),
            objects: Vec::new(),
            placements: Vec::new(),
            catalog_pointers: Vec::new(),
            proposals: Vec::new(),
            votes: Vec::new(),
            vote_history: Vec::new(),
            challenges: Vec::new(),
            replay_nonces: Vec::new(),
            audit_events,
            credits: Vec::new(),
        };
        proof {
            law_append_extends_chain(Seq::empty(), control.audit_events@[0]);
            assert(Seq::<AuditEvent>::empty().push(control.audit_events@[0])
                =~= control.audit_events@);
            assert(control.audit_events@.drop_last() =~= Seq::<AuditEvent>::empty());
            assert(keys_of(control.members@) =~= seq![control.members@[0].member_id@]);
        }
        Ok(control)
    }

    /// Appends the next audit event.
    fn append_audit(&mut self, now: i64, kind: &str, actor: &str, subject: &str)
        requires
            old(self).wf(),
        ensures
            final(self).wf(),
            final(self)@ == (ControlState { events: final(self)@.events, ..old(self)@ }),
            appended(old(self)@.events, final(self)@.events, now, kind@, actor@, subject@),
    {
        let ghost before = self.audit_events@;
        let n = self.audit_events.len();
        proof {
            lemma_chain_ok_at(before, before.len() as int, before.len() - 1);
        }
        let event = AuditEvent::append(
            Some(&self.audit_events[n - 1]),
            now,
            kind.to_owned(),
            actor.to_owned(),
            subject.to_owned(),
        );
        proof {
            law_append_extends_chain(before, event);
        }
        self.audit_events.push(event);
        proof {
            assert(self.audit_events@.drop_last() =~= before);
        }
    }

    /// The active member with this id.
    fn require_active_member(&self, member_id: &str) -> (res: Result<usize, ControlError>)
        requires
            self.wf(),
        ensures
            res is Ok <==> is_active(self@, member_id@),
            res is Err ==> res matches Err(ControlError::Unauthorized),
            res matches Ok(i) ==> i < self@.members.len() && self@.members[i as int].member_id@
                == member_id@ && lookup(self@.members, member_id@) == Some(self@.members[i as int]),
    {
        match find(&self.members, member_id) {
            None => {
                return Err(ControlError::Unauthorized);
            },
            Some(i) => {
                proof {
                    lemma_lookup_at(self.members@, i as int);
                }
                if is_active_status(&self.members[i].status) {
                    Ok(i)
                } else {
                    Err(ControlError::Unauthorized)
                }
            },
        }
    }

    /// Issues a fresh single-use challenge that expires after 300 seconds.
    pub fn issue_challenge(&mut self, now: i64) -> (res: String)
        requires
            old(self).wf(),
            now <= i64::MAX - 300,
        ensures
            final(self).wf(),
            is_cid_bytes(utf8(res@)),
            lookup(final(self)@.challenges, res@) matches Some(c) && c.expires_at == now + 300
                && !c.consumed,
            forall|k: Seq<char>|
                k != res@ ==> #[trigger] lookup(final(self)@.challenges, k) == lookup(
                    old(self)@.challenges,
                    k,
                ),
            final(self)@ == (ControlState { challenges: final(self)@.challenges, ..old(self)@ }),
    {
        let random = random_32();
        let digest = blake3_hash(&random);
        let value = hex(&digest);
        proof {
            crate::text::lemma_hex_is_cid(digest@);
        }
        let challenge = Challenge { value: value.clone(), expires_at: now + 300, consumed: false };
        match find(&self.challenges, value.as_str()) {
            Some(i) => replace(&mut self.challenges, i, challenge),
            None => {
                insert(&mut self.challenges, challenge);
            },
        }
        value
    }

    /// Consumes a challenge once, before it expires, under a replay nonce of
    /// at least 16 bytes that was never used; the nonce is spent even when
    /// the challenge is then refused.
    pub fn consume_challenge(&mut self, challenge: &str, replay_nonce: &str, now: i64) -> (res:
        Result<(), ControlError>)
        requires
            old(self).wf(),
        ensures
            final(self).wf(),
            res is Err ==> res matches Err(ControlError::Replay),
            (utf8(replay_nonce@).len() < 16 || has_key(old(self)@.nonces, replay_nonce@)) ==> {
                &&& res is Err
                &&& final(self)@ == old(self)@
            },
            !(utf8(replay_nonce@).len() < 16 || has_key(old(self)@.nonces, replay_nonce@)) ==> {
                &&& has_key(final(self)@.nonces, replay_nonce@)
                &&& forall|k: Seq<char>|
                    k != replay_nonce@ ==> #[trigger] has_key(final(self)@.nonces, k) == has_key(
                        old(self)@.nonces,
                        k,
                    )
                &&& res is Ok <==> (lookup(old(self)@.challenges, challenge@) matches Some(c)
                    && !c.consumed && c.expires_at >= now)
                &&& res is Ok ==> (lookup(final(self)@.challenges, challenge@) matches Some(c)
                    && c.consumed && c.expires_at == lookup(
                    old(self)@.challenges,
                    challenge@,
                )->0.expires_at)
                &&& res is Err ==> final(self)@.challenges == old(self)@.challenges
                &&& forall|k: Seq<char>|
                    k != challenge@ ==> #[trigger] lookup(final(self)@.challenges, k) == lookup(
                        old(self)@.challenges,
                        k,
                    )
                &&& final(self)@ == (ControlState {
                    nonces: final(self)@.nonces,
                    challenges: final(self)@.challenges,
                    ..old(self)@
                })
            },
    {
        if replay_nonce.as_bytes().len() < 16 {
            return Err(ControlError::Replay);
        }
        match find(&self.replay_nonces, replay_nonce) {
            Some(_) => {
                return Err(ControlError::Replay);
            },
            None => {},
        }
        let ghost before = self.replay_nonces@;
        insert(&mut self.replay_nonces, replay_nonce.to_owned());
        proof {
            assert forall|k: Seq<char>| k != replay_nonce@ implies #[trigger] has_key(
                self.replay_nonces@,
                k,
            ) == has_key(before, k) by {
                assert(lookup(self.replay_nonces@, k) == lookup(before, k));
            }
        }
        let i = match find(&self.challenges, challenge) {
            None => {
                return Err(ControlError::Replay);
            },
            Some(i) => i,
        };
        proof {
            lemma_lookup_at(self.challenges@, i as int);
        }
        if self.challenges[i].consumed || self.challenges[i].expires_at < now {
            return Err(ControlError::Replay);
        }
        let used = Challenge {
            value: self.challenges[i].value.clone(),
            expires_at: self.challenges[i].expires_at,
            consumed: true,
        };
        replace(&mut self.challenges, i, used);
        Ok(())
    }

    /// Approves a member whose credential the community root issued.
    pub fn add_member(&mut self, member: Member, now: i64) -> (res: Result<(), ControlError>)
        requires
            old(self).wf(),
            trusted_time_fits(
                &member.credential,
                old(self)@.community.community_id@,
                old(self)@.community.root_public_key@,
                now as int,
                300,
            ),
        ensures
            final(self).wf(),
            res is Err <==> add_member_outcome(old(self)@, &member, now) is Err,
            res matches Err(e) ==> add_member_outcome(old(self)@, &member, now) == Err::<
                (),
                ControlError,
            >(e),
            res is Err ==> final(self)@ == old(self)@,
            res is Ok ==> final(self)@ == (ControlState {
                members: insert_by(old(self)@.members, member, by_key()),
                events: final(self)@.events,
                ..old(self)@
            }),
            res is Ok ==> appended(
                old(self)@.events,
                final(self)@.events,
                now,
                "membership_approved"@,
                member.member_id@,
                member.member_id@,
            ),
    {
        match member.credential.verify_trusted(
            self.community.community_id.as_str(),
            &self.community.root_public_key,
            now,
            300,
        ) {
            Err(_) => {
                return Err(ControlError::InvalidSignature);
            },
            Ok(_) => {},
        }
        if !bytes_eq(&member.public_key, &member.credential.claims.member_public_key) || !str_equal(
            member.member_id.as_str(),
            member.credential.claims.member_id.as_str(),
        ) || find(&self.members, member.member_id.as_str()).is_some() {
            return Err(ControlError::Conflict);
        }
        self.append_audit(
            now,
            "membership_approved",
            member.member_id.as_str(),
            member.member_id.as_str(),
        );
        insert(&mut self.members, member);
        Ok(())
    }

    /// Registers a node owned by the acting member.
    pub fn register_node(&mut self, actor_member_id: &str, node: NodeRecord, now: i64) -> (res:
        Result<(), ControlError>)
        requires
            old(self).wf(),
        ensures
            final(self).wf(),
            res is Err <==> register_node_outcome(old(self)@, actor_member_id@, &node) is Err,
            res matches Err(e) ==> register_node_outcome(old(self)@, actor_member_id@, &node)
                == Err::<(), ControlError>(e),
            res is Err ==> final(self)@ == old(self)@,
            res is Ok ==> final(self)@ == (ControlState {
                nodes: insert_by(old(self)@.nodes, node, by_key()),
                events: final(self)@.events,
                ..old(self)@
            }),
            res is Ok ==> appended(
                old(self)@.events,
                final(self)@.events,
                now,
                "node_registered"@,
                actor_member_id@,
                node.node_id@,
            ),
    {
        match self.require_active_member(actor_member_id) {
            Err(e) => {
                return Err(e);
            },
            Ok(_) => {},
        }
        if !str_equal(node.owner_member_id.as_str(), actor_member_id) || node.max_storage_bytes
            == 0 || find(&self.nodes, node.node_id.as_str()).is_some() {
            return Err(ControlError::State);
        }
        let ghost before = self@;
        let ghost n = node;
        self.append_audit(now, "node_registered", actor_member_id, node.node_id.as_str());
        insert(&mut self.nodes, node);
        proof {
            lemma_node_insert_keeps_sound(before, self@, n);
        }
        Ok(())
    }

    /// Registers an encrypted object by its content identifier.
    pub fn register_object(&mut self, actor_member_id: &str, object: ObjectRecord, now: i64) -> (res:
        Result<(), ControlError>)
        requires
            old(self).wf(),
        ensures
            final(self).wf(),
            res is Err <==> register_object_outcome(old(self)@, actor_member_id@, &object) is Err,
            res matches Err(e) ==> register_object_outcome(old(self)@, actor_member_id@, &object)
                == Err::<(), ControlError>(e),
            res is Err ==> final(self)@ == old(self)@,
            res is Ok ==> final(self)@ == (ControlState {
                objects: insert_by(old(self)@.objects, object, by_key()),
                events: final(self)@.events,
                ..old(self)@
            }),
            res is Ok ==> appended(
                old(self)@.events,
                final(self)@.events,
                now,
                "object_registered"@,
                actor_member_id@,
                object.object_cid@,
            ),
    {
        match self.require_active_member(actor_member_id) {
            Err(e) => {
                return Err(e);
            },
            Ok(_) => {},
        }
        if !is_cid(object.object_cid.as_str()) || object.ciphertext_size == 0 || find(
            &self.objects,
            object.object_cid.as_str(),
        ).is_some() {
            return Err(ControlError::State);
        }
        let ghost before = self@;
        let ghost o = object;
        self.append_audit(now, "object_registered", actor_member_id, object.object_cid.as_str());
        insert(&mut self.objects, object);
        proof {
            lemma_object_insert_keeps_sound(before, self@, o);
        }
        Ok(())
    }

    /// Records a placement of a registered object on a registered node,
    /// unless a healthy one of the same object on the same node exists.
    #[verifier::loop_isolation(false)]
    pub fn add_placement(&mut self, actor_member_id: &str, placement: Placement, now: i64) -> (res:
        Result<(), ControlError>)
        requires
            old(self).wf(),
        ensures
            final(self).wf(),
            res is Err <==> add_placement_outcome(old(self)@, actor_member_id@, &placement) is Err,
            res matches Err(e) ==> add_placement_outcome(old(self)@, actor_member_id@, &placement)
                == Err::<(), ControlError>(e),
            res is Err ==> final(self)@ == old(self)@,
            res is Ok ==> final(self)@ == (ControlState {
                placements: insert_by(old(self)@.placements, placement, by_key()),
                events: final(self)@.events,
                ..old(self)@
            }),
            res is Ok ==> appended(
                old(self)@.events,
                final(self)@.events,
                now,
                "placement_created"@,
                actor_member_id@,
                placement.placement_id@,
            ),
    {
        match self.require_active_member(actor_member_id) {
            Err(e) => {
                return Err(e);
            },
            Ok(_) => {},
        }
        if find(&self.objects, placement.object_cid.as_str()).is_none() || find(
            &self.nodes,
            placement.node_id.as_str(),
        ).is_none() || find(&self.placements, placement.placement_id.as_str()).is_some() {
            return Err(ControlError::State);
        }
        let mut i: usize = 0;
        while i < self.placements.len()
            invariant
                0 <= i <= self.placements@.len(),
                forall|k: int|
                    0 <= k < i ==> !((#[trigger] self.placements@[k]).object_cid@
                        == placement.object_cid@ && self.placements@[k].node_id@
                        == placement.node_id@ && self.placements@[k].status@ == "healthy"@),
            decreases self.placements@.len() - i,
        {
            let existing = &self.placements[i];
            if str_equal(existing.object_cid.as_str(), placement.object_cid.as_str()) && str_equal(
                existing.node_id.as_str(),
                placement.node_id.as_str(),
            ) && str_equal(existing.status.as_str(), "healthy") {
                return Err(ControlError::State);
            }
            i = i + 1;
        }
        let ghost before = self@;
        let ghost p = placement;
        self.append_audit(
            now,
            "placement_created",
            actor_member_id,
            placement.placement_id.as_str(),
        );
        insert(&mut self.placements, placement);
        proof {
            lemma_placement_insert_keeps_sound(before, self@, actor_member_id@, p);
        }
        Ok(())
    }

    /// Moves a vault's catalog pointer forward by one version, signed by the
    /// acting member; a rollback or a fork is refused.
    pub fn update_catalog_pointer(&mut self, actor_member_id: &str, pointer: CatalogPointer) -> (res:
        Result<(), ControlError>)
        requires
            old(self).wf(),
        ensures
            final(self).wf(),
            res is Err <==> pointer_outcome(old(self)@, actor_member_id@, &pointer) is Err,
            res matches Err(e) ==> pointer_outcome(old(self)@, actor_member_id@, &pointer)
                == Err::<(), ControlError>(e),
            res is Err ==> final(self)@ == old(self)@,
            res is Ok ==> lookup(final(self)@.pointers, pointer.vault_id@) == Some(pointer),
            res is Ok ==> forall|k: Seq<char>|
                k != pointer.vault_id@ ==> #[trigger] lookup(final(self)@.pointers, k) == lookup(
                    old(self)@.pointers,
                    k,
                ),
            res is Ok ==> final(self)@ == (ControlState {
                pointers: final(self)@.pointers,
                events: final(self)@.events,
                ..old(self)@
            }),
            res is Ok ==> appended(
                old(self)@.events,
                final(self)@.events,
                pointer.signed_at,
                "catalog_pointer_updated"@,
                actor_member_id@,
                pointer.vault_id@,
            ),
    {
        let m = match self.require_active_member(actor_member_id) {
            Err(e) => {
                return Err(e);
            },
            Ok(m) => m,
        };
        let message = pointer.signing_bytes();
        match self.members[m].credential.verify_member_signature(
            &message,
            pointer.owner_signature.as_slice(),
        ) {
            Err(_) => {
                return Err(ControlError::InvalidSignature);
            },
            Ok(_) => {},
        }
        let current = find(&self.catalog_pointers, pointer.vault_id.as_str());
        match current {
            Some(i) => {
                proof {
                    lemma_lookup_at(self.catalog_pointers@, i as int);
                }
                let previous = &self.catalog_pointers[i];
                let linked = match &pointer.previous_cid {
                    Some(c) => str_equal(c.as_str(), previous.catalog_cid.as_str()),
                    None => false,
                };
                if previous.version == u64::MAX || pointer.version != previous.version + 1
                    || !linked {
                    return Err(ControlError::State);
                }
            },
            None => {
                if pointer.version != 1 || pointer.previous_cid.is_some() {
                    return Err(ControlError::State);
                }
            },
        }
        self.append_audit(
            pointer.signed_at,
            "catalog_pointer_updated",
            actor_member_id,
            pointer.vault_id.as_str(),
        );
        match current {
            Some(i) => replace(&mut self.catalog_pointers, i, pointer),
            None => {
                insert(&mut self.catalog_pointers, pointer);
            },
        }
        Ok(())
    }

    /// Records a credit entry in an active member's ledger.
    pub fn record_credit(&mut self, member_id: &str, entry: CreditEntry) -> (res: Result<
        (),
        ControlError,
    >)
        requires
            old(self).wf(),
        ensures
            final(self).wf(),
            res is Err <==> credit_outcome(old(self)@, member_id@, entry) is Err,
            res matches Err(e) ==> credit_outcome(old(self)@, member_id@, entry) == Err::<
                (),
                ControlError,
            >(e),
            ledger_entries(final(self)@, member_id@) == (if res is Ok {
                ledger_entries(old(self)@, member_id@).push(entry)
            } else {
                ledger_entries(old(self)@, member_id@)
            }),
            forall|k: Seq<char>|
                k != member_id@ ==> #[trigger] lookup(final(self)@.credits, k) == lookup(
                    old(self)@.credits,
                    k,
                ),
            res is Err ==> final(self)@.events == old(self)@.events,
            res is Ok ==> appended(
                old(self)@.events,
                final(self)@.events,
                entry.occurred_at,
                "credit_entry_recorded"@,
                member_id@,
                entry.reason.name_spec(),
            ),
            final(self)@ == (ControlState {
                credits: final(self)@.credits,
                events: final(self)@.events,
                ..old(self)@
            }),
    {
        match self.require_active_member(member_id) {
            Err(e) => {
                return Err(e);
            },
            Ok(_) => {},
        }
        let occurred_at = entry.occurred_at;
        let reason = entry.reason.name();
        let i = ensure_ledger(&mut self.credits, member_id);
        let ghost mid = self.credits@;
        let recorded = ledger_record(&mut self.credits, i, entry);
        proof {
            lemma_lookup_at(self.credits@, i as int);
            assert forall|k: Seq<char>| k != member_id@ implies #[trigger] lookup(
                self.credits@,
                k,
            ) == lookup(mid, k) by {
                if has_key(mid, k) {
                    let p = choose|p: int| 0 <= p < keys_of(mid).len() && keys_of(mid)[p] == k;
                    lemma_lookup_at(mid, p);
                    assert(self.credits@[p] == mid[p]);
                    lemma_lookup_at(self.credits@, p);
                } else {
                    assert(keys_of(self.credits@) == keys_of(mid));
                }
            }
        }
        match recorded {
            Err(e) => {
                return Err(ControlError::Credit(e));
            },
            Ok(_) => {},
        }
        self.append_audit(occurred_at, "credit_entry_recorded", member_id, reason);
        Ok(())
    }

    /// An active member's credit balance at `now`.
    pub fn credit_balance(&self, member_id: &str, now: i64) -> (res: Result<i64, ControlError>)
        requires
            self.wf(),
        ensures
            !is_active(self@, member_id@) ==> res matches Err(ControlError::Unauthorized),
            is_active(self@, member_id@) ==> match balance_fold(
                ledger_entries(self@, member_id@),
                now as int,
            ) {
                Some(b) => res matches Ok(v) && v == b,
                None => res matches Err(ControlError::Credit(CreditError::Overflow)),
            },
    {
        match self.require_active_member(member_id) {
            Err(e) => {
                return Err(e);
            },
            Ok(_) => {},
        }
        match find(&self.credits, member_id) {
            None => Ok(0),
            Some(i) => {
                proof {
                    lemma_lookup_at(self.credits@, i as int);
                }
                match self.credits[i].ledger.balance_at(now) {
                    Ok(b) => Ok(b),
                    Err(e) => Err(ControlError::Credit(e)),
                }
            },
        }
    }

    /// Opens a proposal made by an active member.
    pub fn create_proposal(&mut self, proposal: Proposal, now: i64) -> (res: Result<
        (),
        ControlError,
    >)
        requires
            old(self).wf(),
        ensures
            final(self).wf(),
            res is Err <==> proposal_outcome(old(self)@, &proposal) is Err,
            res matches Err(e) ==> proposal_outcome(old(self)@, &proposal) == Err::<
                (),
                ControlError,
            >(e),
            res is Err ==> final(self)@ == old(self)@,
            res is Ok ==> final(self)@ == (ControlState {
                proposals: insert_by(old(self)@.proposals, proposal, by_key()),
                events: final(self)@.events,
                ..old(self)@
            }),
            res is Ok ==> appended(
                old(self)@.events,
                final(self)@.events,
                now,
                "proposal_created"@,
                proposal.created_by_member_id@,
                proposal.proposal_id@,
            ),
    {
        match self.require_active_member(proposal.created_by_member_id.as_str()) {
            Err(e) => {
                return Err(e);
            },
            Ok(_) => {},
        }
        if proposal.opens_at >= proposal.closes_at || proposal.quorum_percent > 100
            || proposal.threshold_percent > 100 || find(
            &self.proposals,
            proposal.proposal_id.as_str(),
        ).is_some() {
            return Err(ControlError::State);
        }
        self.append_audit(
            now,
            "proposal_created",
            proposal.created_by_member_id.as_str(),
            proposal.proposal_id.as_str(),
        );
        insert(&mut self.proposals, proposal);
        Ok(())
    }

    /// Casts a member-signed vote while the proposal is open; a later vote
    /// by the same member replaces the earlier one, and both stay in the
    /// history.
    pub fn cast_vote(&mut self, vote: Vote) -> (res: Result<(), ControlError>)
        requires
            old(self).wf(),
        ensures
            final(self).wf(),
            res is Err <==> vote_outcome(old(self)@, &vote) is Err,
            res matches Err(e) ==> vote_outcome(old(self)@, &vote) == Err::<(), ControlError>(e),
            res is Err ==> final(self)@ == old(self)@,
            res is Ok ==> final(self)@ == (ControlState {
                votes: votes_after(old(self)@.votes, vote),
                history: final(self)@.history,
                events: final(self)@.events,
                ..old(self)@
            }),
            res is Ok ==> final(self)@.history.len() == old(self)@.history.len() + 1,
            res is Ok ==> final(self)@.history.drop_last() == old(self)@.history,
            res is Ok ==> same_ballot(final(self)@.history.last(), vote)
                && final(self)@.history.last().choice == vote.choice
                && final(self)@.history.last().cast_at == vote.cast_at,
            res is Ok ==> appended(
                old(self)@.events,
                final(self)@.events,
                vote.cast_at,
                "vote_cast"@,
                vote.member_id@,
                vote.proposal_id@,
            ),
    {
        let m = match self.require_active_member(vote.member_id.as_str()) {
            Err(e) => {
                return Err(e);
            },
            Ok(m) => m,
        };
        let p = match find(&self.proposals, vote.proposal_id.as_str()) {
            None => {
                return Err(ControlError::NotFound);
            },
            Some(p) => p,
        };
        proof {
            lemma_lookup_at(self.proposals@, p as int);
        }
        if vote.cast_at < self.proposals[p].opens_at || vote.cast_at > self.proposals[p].closes_at {
            return Err(ControlError::State);
        }
        let message = vote.signing_bytes();
        match self.members[m].credential.verify_member_signature(
            &message,
            vote.member_signature.as_slice(),
        ) {
            Err(_) => {
                return Err(ControlError::InvalidSignature);
            },
            Ok(_) => {},
        }
        self.append_audit(
            vote.cast_at,
            "vote_cast",
            vote.member_id.as_str(),
            vote.proposal_id.as_str(),
        );
        let record = vote.copy();
        self.vote_history.push(record);
        let ghost before = self.votes@;
        match find_vote(&self.votes, vote.proposal_id.as_str(), vote.member_id.as_str()) {
            Some(i) => {
                proof {
                    assert(same_ballot(before[i as int], vote));
                    let c = choose|c: int| 0 <= c < before.len() && same_ballot(
                        #[trigger] before[c],
                        vote,
                    );
                    if c != i as int {
                        if c < i {
                            assert(!same_ballot(before[c], before[i as int]));
                        } else {
                            assert(!same_ballot(before[i as int], before[c]));
                        }
                    }
                }
                self.votes.set(i, vote);
                proof {
                    assert forall|a: int, b: int|
                        0 <= a < b < self.votes@.len() implies !same_ballot(
                        #[trigger] self.votes@[a],
                        #[trigger] self.votes@[b],
                    ) by {
                        if a == i as int {
                            assert(!same_ballot(before[a], before[b]));
                        } else if b == i as int {
                            assert(!same_ballot(before[a], before[b]));
                        } else {
                            assert(!same_ballot(before[a], before[b]));
                        }
                    }
                }
            },
            None => {
                proof {
                    assert(!exists|k: int| 0 <= k < before.len() && same_ballot(
                        #[trigger] before[k],
                        vote,
                    ));
                }
                self.votes.push(vote);
                proof {
                    assert forall|a: int, b: int|
                        0 <= a < b < self.votes@.len() implies !same_ballot(
                        #[trigger] self.votes@[a],
                        #[trigger] self.votes@[b],
                    ) by {
                        if b == before.len() {
                            assert(self.votes@[a] == before[a]);
                            assert(!same_ballot(before[a], vote));
                        } else {
                            assert(!same_ballot(before[a], before[b]));
                        }
                    }
                }
            },
        }
        Ok(())
    }

    /// The tally of a proposal: each member's standing vote once, and the
    /// number of active members.
    pub fn vote_result(&self, proposal_id: &str) -> (res: Result<VoteResult, ControlError>)
        requires
            self.wf(),
        ensures
            !has_key(self@.proposals, proposal_id@) ==> res matches Err(ControlError::NotFound),
            has_key(self@.proposals, proposal_id@) ==> (res matches Ok(r) && r.yes == tally(
                self@.votes,
                proposal_id@,
                VoteChoice::Yes,
            ) && r.no == tally(self@.votes, proposal_id@, VoteChoice::No) && r.abstain == tally(
                self@.votes,
                proposal_id@,
                VoteChoice::Abstain,
            ) && r.eligible_members == count_active(self@.members) && r.yes + r.no + r.abstain
                == self@.votes.filter(on_proposal(proposal_id@)).len()),
    {
        if find(&self.proposals, proposal_id).is_none() {
            return Err(ControlError::NotFound);
        }
        let mut eligible: u64 = 0;
        let mut i: usize = 0;
        while i < self.members.len()
            invariant
                0 <= i <= self.members@.len(),
                eligible == count_active(self.members@.take(i as int)),
                eligible <= i,
            decreases self.members@.len() - i,
        {
            assert(self.members@.take(i + 1).drop_last() =~= self.members@.take(i as int));
            if is_active_status(&self.members[i].status) {
                eligible = eligible + 1;
            }
            i = i + 1;
        }
        assert(self.members@.take(self.members@.len() as int) =~= self.members@);
        let mut yes: u64 = 0;
        let mut no: u64 = 0;
        let mut abstain: u64 = 0;
        let mut k: usize = 0;
        while k < self.votes.len()
            invariant
                0 <= k <= self.votes@.len(),
                yes == tally(self.votes@.take(k as int), proposal_id@, VoteChoice::Yes),
                no == tally(self.votes@.take(k as int), proposal_id@, VoteChoice::No),
                abstain == tally(self.votes@.take(k as int), proposal_id@, VoteChoice::Abstain),
                yes <= k && no <= k && abstain <= k,
            decreases self.votes@.len() - k,
        {
            assert(self.votes@.take(k + 1).drop_last() =~= self.votes@.take(k as int));
            let v = &self.votes[k];
            if str_equal(v.proposal_id.as_str(), proposal_id) {
                match v.choice {
                    VoteChoice::Yes => {
                        yes = yes + 1;
                    },
                    VoteChoice::No => {
                        no = no + 1;
                    },
                    VoteChoice::Abstain => {
                        abstain = abstain + 1;
                    },
                }
            }
            k = k + 1;
        }
        assert(self.votes@.take(self.votes@.len() as int) =~= self.votes@);
        proof {
            law_tally_counts_votes_on_proposal(self@.votes, proposal_id@);
        }
        Ok(VoteResult { yes, no, abstain, eligible_members: eligible })
    }

    /// How many votes were ever cast.
    pub fn vote_history_len(&self) -> (res: usize)
        ensures
            res == self@.history.len(),
    {
        self.vote_history.len()
    }

    /// The audit chain.
    pub fn audit_events(&self) -> (res: &[AuditEvent])
        ensures
            res@ == self@.events,
    {
        self.audit_events.as_slice()
    }

    /// The community.
    pub fn community(&self) -> (res: &Community)
        ensures
            *res == self@.community,
    {
        &self.community
    }

    /// The members, in id order.
    pub fn members(&self) -> (res: &[Member])
        ensures
            res@ == self@.members,
    {
        self.members.as_slice()
    }

    /// The nodes, in id order.
    pub fn nodes(&self) -> (res: &[NodeRecord])
        ensures
            res@ == self@.nodes,
    {
        self.nodes.as_slice()
    }

    /// The catalog pointers, in vault order.
    pub fn catalog_pointers(&self) -> (res: &[CatalogPointer])
        ensures
            res@ == self@.pointers,
    {
        self.catalog_pointers.as_slice()
    }

    /// The root a snapshot carries: the audit chain must verify first.
    pub fn snapshot_audit_root(&self) -> (res: Result<String, ControlError>)
        ensures
            chain_outcome(self@.events) is Err ==> res matches Err(ControlError::Snapshot),
            chain_outcome(self@.events) is Ok ==> (res matches Ok(r) && r@ == audit_root_spec(
                self@.events,
            )),
    {
        match verify_chain(self.audit_events.as_slice()) {
            Err(_) => Err(ControlError::Snapshot),
            Ok(_) => Ok(merkle_root(self.audit_events.as_slice())),
        }
    }

    /// Checks a snapshot: format, audit chain, audit root, and that its hash
    /// is the content identifier of `canonical`, its encoding with the hash
    /// left empty.
    pub fn verify_snapshot(snapshot: &CommunitySnapshot, canonical: &[u8]) -> (res: Result<
        (),
        ControlError,
    >)
        ensures
            res is Err ==> res matches Err(ControlError::Snapshot),
            res is Ok <==> snapshot.format_version == 1 && chain_outcome(snapshot.audit_events@) is Ok
                && snapshot.audit_root@ == audit_root_spec(snapshot.audit_events@)
                && snapshot.snapshot_hash@ == hex_chars(blake3_digest(canonical@)),
    {
        if snapshot.format_version != 1 || verify_chain(snapshot.audit_events.as_slice()).is_err() {
            return Err(ControlError::Snapshot);
        }
        let root = merkle_root(snapshot.audit_events.as_slice());
        if !str_equal(snapshot.audit_root.as_str(), root.as_str()) {
            return Err(ControlError::Snapshot);
        }
        let digest = blake3_hash(canonical);
        let expected = hex(&digest);
        if !str_equal(snapshot.snapshot_hash.as_str(), expected.as_str()) {
            return Err(ControlError::Snapshot);
        }
        Ok(())
    }
}

/// A catalog pointer can only move forward: once the plane accepts a pointer
/// for a vault, the next accepted pointer for that vault has the next
/// version and names the accepted catalog as its predecessor.
pub proof fn law_pointer_moves_forward(s: ControlState, actor: Seq<char>, p: &CatalogPointer)
    requires
        state_ok(s),
        pointer_outcome(s, actor, p) is Ok,
        lookup(s.pointers, p.vault_id@) is Some,
    ensures
        p.version == lookup(s.pointers, p.vault_id@)->0.version + 1,
        p.previous_cid matches Some(c) && c@ == lookup(s.pointers, p.vault_id@)->0.catalog_cid@,
{
}

/// One member, one vote: in a valid state no two standing votes share a
/// proposal and a member, so each member counts at most once in a tally.
pub proof fn law_one_standing_vote(s: ControlState, i: int, j: int)
    requires
        state_ok(s),
        0 <= i < s.votes.len(),
        0 <= j < s.votes.len(),
        i != j,
    ensures
        !same_ballot(s.votes[i], s.votes[j]),
{
    if j < i {
        assert(!same_ballot(s.votes[j], s.votes[i]));
    }
}

/// Eligible members are the active ones: adding a member raises the count by
/// one exactly when its status is `active`.
pub proof fn law_eligible_counts_active(s: Seq<Member>, m: Member)
    ensures
        count_active(s.push(m)) == count_active(s) + if m.status@ == "active"@ {
            1int
        } else {
            0int
        },
        count_active(s) <= s.len(),
    decreases s.len(),
{
    assert(s.push(m).drop_last() =~= s);
    if s.len() > 0 {
        law_eligible_counts_active(s.drop_last(), s.last());
    }
}

/// Whether a vote is on the given proposal.
pub open spec fn on_proposal(proposal: Seq<char>) -> spec_fn(Vote) -> bool {
    |w: Vote| w.proposal_id@ == proposal
}

/// Adding a vote raises the tally of its own proposal and choice by one and
/// leaves the tally of every other proposal as it was.
pub proof fn law_tally_step(s: Seq<Vote>, v: Vote, proposal: Seq<char>, choice: VoteChoice)
    ensures
        tally(s.push(v), proposal, choice) == tally(s, proposal, choice) + if v.proposal_id@
            == proposal && v.choice == choice {
            1int
        } else {
            0int
        },
        v.proposal_id@ != proposal ==> tally(s.push(v), proposal, choice) == tally(
            s,
            proposal,
            choice,
        ),
{
    assert(s.push(v).drop_last() =~= s);
}

/// Yes, no and abstain together count exactly the standing votes on the
/// proposal, and none on another.
pub proof fn law_tally_counts_votes_on_proposal(s: Seq<Vote>, proposal: Seq<char>)
    ensures
        tally(s, proposal, VoteChoice::Yes) + tally(s, proposal, VoteChoice::No) + tally(
            s,
            proposal,
            VoteChoice::Abstain,
        ) == s.filter(on_proposal(proposal)).len(),
    decreases s.len(),
{
    reveal(Seq::filter);
    if s.len() > 0 {
        law_tally_counts_votes_on_proposal(s.drop_last(), proposal);
    }
}

proof fn lemma_tally_update_elsewhere(
    s: Seq<Vote>,
    i: int,
    w: Vote,
    proposal: Seq<char>,
    choice: VoteChoice,
)
    requires
        0 <= i < s.len(),
        s[i].proposal_id@ != proposal,
        w.proposal_id@ != proposal,
    ensures
        tally(s.update(i, w), proposal, choice) == tally(s, proposal, choice),
    decreases s.len(),
{
    let t = s.update(i, w);
    if i == s.len() - 1 {
        assert(t.drop_last() =~= s.drop_last());
    } else {
        assert(t.drop_last() =~= s.drop_last().update(i, w));
        lemma_tally_update_elsewhere(s.drop_last(), i, w, proposal, choice);
    }
}

/// Casting or changing a vote on another proposal leaves a proposal's tally
/// unchanged.
pub proof fn law_other_vote_leaves_tally(
    s: Seq<Vote>,
    v: Vote,
    proposal: Seq<char>,
    choice: VoteChoice,
)
    requires
        v.proposal_id@ != proposal,
    ensures
        tally(votes_after(s, v), proposal, choice) == tally(s, proposal, choice),
{
    if exists|i: int| 0 <= i < s.len() && same_ballot(#[trigger] s[i], v) {
        let c = choose|i: int| 0 <= i < s.len() && same_ballot(#[trigger] s[i], v);
        lemma_tally_update_elsewhere(s, c, v, proposal, choice);
    } else {
        law_tally_step(s, v, proposal, choice);
    }
}

/// The latest accepted vote is the one that counts: after `v` is cast over
/// standing votes with one ballot per member and proposal, `v` is the
/// member's only standing vote on the proposal, every other standing vote
/// stays, and nothing else is added. `vote_result` tallies these standing
/// votes.
pub proof fn law_latest_vote_stands(s: Seq<Vote>, v: Vote)
    requires
        ballots_unique(s),
    ensures
        votes_after(s, v).contains(v),
        forall|i: int|
            0 <= i < votes_after(s, v).len() && same_ballot(#[trigger] votes_after(s, v)[i], v)
                ==> votes_after(s, v)[i] == v,
        forall|w: Vote| #[trigger] s.contains(w) && !same_ballot(w, v) ==> votes_after(s, v).contains(w),
        forall|w: Vote| #[trigger] votes_after(s, v).contains(w) ==> w == v || s.contains(w),
{
    let t = votes_after(s, v);
    if exists|i: int| 0 <= i < s.len() && same_ballot(#[trigger] s[i], v) {
        let c = choose|i: int| 0 <= i < s.len() && same_ballot(#[trigger] s[i], v);
        assert(t == s.update(c, v));
        assert(t[c] == v);
        assert forall|i: int| 0 <= i < t.len() && same_ballot(#[trigger] t[i], v) implies t[i] == v by {
            if i != c {
                assert(t[i] == s[i]);
                if i < c {
                    assert(!same_ballot(s[i], s[c]));
                } else {
                    assert(!same_ballot(s[c], s[i]));
                }
            }
        }
        assert forall|w: Vote| #[trigger] s.contains(w) && !same_ballot(w, v) implies t.contains(w) by {
            let k = choose|k: int| 0 <= k < s.len() && s[k] == w;
            assert(t[k] == w);
        }
        assert forall|w: Vote| #[trigger] t.contains(w) implies w == v || s.contains(w) by {
            let k = choose|k: int| 0 <= k < t.len() && t[k] == w;
            if k != c {
                assert(s[k] == w);
            }
        }
    } else {
        assert(t == s.push(v));
        assert(t[s.len() as int] == v);
        assert forall|w: Vote| #[trigger] s.contains(w) && !same_ballot(w, v) implies t.contains(w) by {
            let k = choose|k: int| 0 <= k < s.len() && s[k] == w;
            assert(t[k] == w);
        }
        assert forall|w: Vote| #[trigger] t.contains(w) implies w == v || s.contains(w) by {
            let k = choose|k: int| 0 <= k < t.len() && t[k] == w;
            if k < s.len() {
                assert(s[k] == w);
            }
        }
    }
}

/// One operation's effect on the audit log: left as it was, or one event
/// added at its end. Every operation of the plane has this effect: on `Err`
/// it leaves the log as it was, and on `Ok` its contract gives `appended`.
pub open spec fn log_step(old: Seq<AuditEvent>, new: Seq<AuditEvent>) -> bool {
    new == old || (new.len() == old.len() + 1 && new.drop_last() == old)
}

/// The `k`-th step of a run of states is a log step.
pub open spec fn log_step_at(run: Seq<ControlState>, k: int) -> bool {
    log_step(run[k].events, run[k + 1].events)
}

/// An appended event is a log step.
pub proof fn lemma_appended_is_log_step(
    old: Seq<AuditEvent>,
    new: Seq<AuditEvent>,
    now: i64,
    kind: Seq<char>,
    actor: Seq<char>,
    subject: Seq<char>,
)
    requires
        appended(old, new, now, kind, actor, subject),
    ensures
        log_step(old, new),
{
}

/// The audit log is append-only over any run of operations: when each
/// operation leaves the log as it was or adds one event at its end, every
/// earlier log is a prefix of every later one, grown by at most one event
/// per operation; when every state of the run is valid, every log in it is
/// a valid chain.
pub proof fn law_audit_log_append_only(run: Seq<ControlState>, i: int, j: int)
    requires
        0 <= i <= j < run.len(),
        forall|k: int| 0 <= k < run.len() - 1 ==> #[trigger] log_step_at(run, k),
    ensures
        run[i].events.len() <= run[j].events.len() <= run[i].events.len() + (j - i),
        run[j].events.take(run[i].events.len() as int) == run[i].events,
        state_ok(run[j]) ==> chain_outcome(run[j].events) is Ok,
    decreases j - i,
{
    if j > i {
        law_audit_log_append_only(run, i, j - 1);
        assert(log_step_at(run, j - 1));
        let a = run[j - 1].events;
        let b = run[j].events;
        let n = run[i].events.len() as int;
        if b != a {
            assert(b.take(n) =~= a.take(n)) by {
                assert forall|k: int| 0 <= k < n implies b[k] == a[k] by {
                    assert(b.drop_last()[k] == b[k]);
                }
            }
        }
    } else {
        assert(run[j].events.take(run[i].events.len() as int) =~= run[i].events);
    }
}

} // verus!
