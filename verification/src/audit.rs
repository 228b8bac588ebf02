//! The audit log: a hash chain of events, its Merkle root, and anchors that
//! publish a root for a period.
use vstd::prelude::*;
use crate::text::{utf8, is_cid, is_cid_bytes, push_str, str_equal, hex, hex_chars, ascii_string,
    ascii_chars, all_ascii, lemma_hex_is_cid};
use crate::json::{dec, json_int, push_dec, push_json_i64};
use crate::hashing::{blake3_digest, blake3_hash, merkle_fold, merkle_root_of, node_views};

verus! {

/// `std::io::Error`, which an anchor that writes a file may report.
#[verifier::external_type_specification]
#[verifier::external_body]
pub struct ExIoError(std::io::Error);

/// `serde_json::Error`, which an anchor that encodes JSON may report.
#[verifier::external_type_specification]
#[verifier::external_body]
pub struct ExJsonError(serde_json::Error);

/// One event of the audit chain.
#[derive(Clone, Debug, PartialEq, Eq)]
pub struct AuditEvent {
    pub sequence: u64,
    pub occurred_at: i64,
    pub kind: String,
    pub actor_id: String,
    pub subject_id: String,
    pub previous_hash: String,
    pub event_hash: String,
}

/// Why a chain or an anchor was refused.
#[derive(Debug)]
pub enum AuditError {
    Sequence,
    Chain,
    InvalidAnchor,
    DuplicateAnchor,
    Io(std::io::Error),
    Encoding(serde_json::Error),
}

/// The Merkle root of a community's audit log for one period.
#[derive(Clone, Debug, PartialEq, Eq)]
pub struct AuditAnchor {
    pub community_id: String,
    pub period: String,
    pub merkle_root: String,
    pub anchored_at: i64,
}

/// What `AuditAnchor::validate` accepts.
pub open spec fn anchor_valid(a: &AuditAnchor) -> bool {
    a.community_id@.len() > 0 && a.period@.len() > 0 && a.anchored_at >= 0 && is_cid_bytes(
        utf8(a.merkle_root@),
    )
}

/// Two anchors for the same community and period.
pub open spec fn same_slot(a: AuditAnchor, b: AuditAnchor) -> bool {
    a.community_id@ == b.community_id@ && a.period@ == b.period@
}

impl AuditAnchor {
    /// Checks that community and period are named, the time is not negative
    /// and the root is 64 hexadecimal digits.
    pub fn validate(&self) -> (res: Result<(), AuditError>)
        ensures
            res is Ok <==> anchor_valid(self),
            res is Err ==> res matches Err(AuditError::InvalidAnchor),
    {
        let root_is_hex = is_cid(self.merkle_root.as_str());
        if self.community_id.as_str().is_empty() || self.period.as_str().is_empty()
            || self.anchored_at < 0 || !root_is_hex {
            return Err(AuditError::InvalidAnchor);
        }
        Ok(())
    }

    /// Whether `other` anchors the same community and period.
    pub fn same_slot_as(&self, other: &AuditAnchor) -> (res: bool)
        ensures
            res == same_slot(*self, *other),
    {
        str_equal(self.community_id.as_str(), other.community_id.as_str()) && str_equal(
            self.period.as_str(),
            other.period.as_str(),
        )
    }

    /// A field-by-field copy.
    pub fn copy(&self) -> (res: AuditAnchor)
        ensures
            res.community_id@ == self.community_id@,
            res.period@ == self.period@,
            res.merkle_root@ == self.merkle_root@,
            res.anchored_at == self.anchored_at,
    {
        AuditAnchor {
            community_id: self.community_id.clone(),
            period: self.period.clone(),
            merkle_root: self.merkle_root.clone(),
            anchored_at: self.anchored_at,
        }
    }
}

/// Somewhere an anchor can be published.
pub trait AuditAnchorAdapter {
    /// The name of this kind of anchor.
    fn kind(&self) -> &'static str;

    /// Publishes an anchor.
    fn anchor(&mut self, anchor: &AuditAnchor) -> Result<(), AuditError>;
}

/// Anchors kept in memory.
pub struct MockAnchor {
    pub anchors: Vec<AuditAnchor>,
}

impl Default for MockAnchor {
    fn default() -> (res: Self)
        ensures
            res.anchors@.len() == 0,
    {
        MockAnchor { anchors: Vec::new() }
    }
}

impl AuditAnchorAdapter for MockAnchor {
    fn kind(&self) -> (res: &'static str)
        ensures
            res@ == "mock"@,
    {
        "mock"
    }

    fn anchor(&mut self, anchor: &AuditAnchor) -> (res: Result<(), AuditError>)
        ensures
            !anchor_valid(anchor) ==> res matches Err(AuditError::InvalidAnchor),
            anchor_valid(anchor) && (exists|i: int|
                0 <= i < old(self).anchors@.len() && same_slot(
                    #[trigger] old(self).anchors@[i],
                    *anchor,
                )) ==> res matches Err(AuditError::DuplicateAnchor),
            res is Err ==> final(self).anchors@ == old(self).anchors@,
            res is Ok ==> {
                &&& final(self).anchors@.len() == old(self).anchors@.len() + 1
                &&& final(self).anchors@.take(old(self).anchors@.len() as int)
                    == old(self).anchors@
                &&& final(self).anchors@.last().community_id@ == anchor.community_id@
                &&& final(self).anchors@.last().period@ == anchor.period@
                &&& final(self).anchors@.last().merkle_root@ == anchor.merkle_root@
                &&& final(self).anchors@.last().anchored_at == anchor.anchored_at
            },
            res is Ok <==> anchor_valid(anchor) && (forall|i: int|
                0 <= i < old(self).anchors@.len() ==> !same_slot(
                    #[trigger] old(self).anchors@[i],
                    *anchor,
                )),
    {
        match anchor.validate() {
            Err(e) => {
                return Err(e);
            },
            Ok(_) => {},
        }
        let mut i: usize = 0;
        while i < self.anchors.len()
            invariant
                0 <= i <= self.anchors@.len(),
                anchor_valid(anchor),
                forall|k: int| 0 <= k < i ==> !same_slot(#[trigger] self.anchors@[k], *anchor),
            decreases self.anchors@.len() - i,
        {
            if self.anchors[i].same_slot_as(anchor) {
                return Err(AuditError::DuplicateAnchor);
            }
            i = i + 1;
        }
        let ghost before = self.anchors@;
        self.anchors.push(anchor.copy());
        assert(self.anchors@.take(before.len() as int) =~= before);
        Ok(())
    }
}

/// Writes anchors into a D1 table; implemented by its users.
pub trait D1AnchorWriter {
    /// Inserts one validated anchor.
    fn insert_anchor(&mut self, anchor: &AuditAnchor) -> Result<(), AuditError>;
}

/// Anchors written through a D1 writer.
pub struct D1Anchor<W> {
    writer: W,
}

impl<W> D1Anchor<W> {
    /// An anchor over `writer`.
    pub fn new(writer: W) -> (res: Self)
        ensures
            res.writer() == writer,
    {
        D1Anchor { writer }
    }

    /// The writer.
    pub closed spec fn writer(&self) -> W {
        self.writer
    }
}

impl<W: D1AnchorWriter> AuditAnchorAdapter for D1Anchor<W> {
    fn kind(&self) -> (res: &'static str)
        ensures
            res@ == "d1"@,
    {
        "d1"
    }

    fn anchor(&mut self, anchor: &AuditAnchor) -> (res: Result<(), AuditError>)
        ensures
            !anchor_valid(anchor) ==> res matches Err(AuditError::InvalidAnchor),
            !anchor_valid(anchor) ==> final(self).writer() == old(self).writer(),
    {
        match anchor.validate() {
            Err(e) => {
                return Err(e);
            },
            Ok(_) => {},
        }
        self.writer.insert_anchor(anchor)
    }
}

/// Encodes an anchor as a call to a public-chain contract, without network
/// access or keys; implemented by its users.
pub trait FutureEvmAnchor {
    /// The call data for an anchor.
    fn encode_anchor_call(&self, anchor: &AuditAnchor) -> Result<Vec<u8>, AuditError>;
}

/// The previous hash of the first event: 64 zeros.
pub open spec fn zero_hash() -> Seq<char> {
    Seq::new(64, |i: int| '0')
}

/// The text whose digest is an event's hash.
pub open spec fn event_canonical_parts(
    sequence: u64,
    occurred_at: i64,
    kind: Seq<char>,
    actor: Seq<char>,
    subject: Seq<char>,
    previous: Seq<char>,
) -> Seq<u8> {
    utf8("acm.audit-event.v1|"@) + dec(sequence as nat) + seq![124u8] + json_int(
        occurred_at as int,
    ) + seq![124u8] + utf8(kind) + seq![124u8] + utf8(actor) + seq![124u8] + utf8(subject)
        + seq![124u8] + utf8(previous)
}

/// The hash an event must carry: hex of the digest of its canonical text.
pub open spec fn event_hash_spec(e: &AuditEvent) -> Seq<char> {
    hex_chars(
        blake3_digest(
            event_canonical_parts(
                e.sequence,
                e.occurred_at,
                e.kind@,
                e.actor_id@,
                e.subject_id@,
                e.previous_hash@,
            ),
        ),
    )
}

/// The previous hash that event `i` of a chain must carry.
pub open spec fn expected_previous(s: Seq<AuditEvent>, i: int) -> Seq<char> {
    if i == 0 {
        zero_hash()
    } else {
        s[i - 1].event_hash@
    }
}

/// The check of event `i` of a chain.
pub open spec fn event_check(s: Seq<AuditEvent>, i: int) -> Result<(), AuditError> {
    if s[i].sequence != i {
        Err(AuditError::Sequence)
    } else if s[i].previous_hash@ != expected_previous(s, i) || s[i].event_hash@
        != event_hash_spec(&s[i]) {
        Err(AuditError::Chain)
    } else {
        Ok(())
    }
}

/// The first failing check among the first `n` events, if any.
pub open spec fn chain_upto(s: Seq<AuditEvent>, n: int) -> Result<(), AuditError>
    decreases n,
{
    if n <= 0 {
        Ok(())
    } else {
        match chain_upto(s, n - 1) {
            Err(e) => Err(e),
            Ok(_) => event_check(s, n - 1),
        }
    }
}

/// What `verify_chain` answers.
pub open spec fn chain_outcome(s: Seq<AuditEvent>) -> Result<(), AuditError> {
    chain_upto(s, s.len() as int)
}

/// Once a check fails, later events do not change the answer.
proof fn lemma_chain_err_stays(s: Seq<AuditEvent>, k: int, n: int)
    requires
        0 <= k <= n,
        chain_upto(s, k) is Err,
    ensures
        chain_upto(s, n) == chain_upto(s, k),
    decreases n - k,
{
    if n > k {
        lemma_chain_err_stays(s, k, n - 1);
    }
}

/// The chain checks of a prefix only read the prefix.
proof fn lemma_chain_prefix(s: Seq<AuditEvent>, t: Seq<AuditEvent>, n: int)
    requires
        0 <= n <= s.len(),
        n <= t.len(),
        s.take(n) == t.take(n),
    ensures
        chain_upto(s, n) == chain_upto(t, n),
    decreases n,
{
    if n > 0 {
        assert(s.take(n - 1) =~= t.take(n - 1)) by {
            assert forall|i: int| 0 <= i < n - 1 implies #[trigger] s.take(n - 1)[i] == t.take(n - 1)[i] by {
                assert(s.take(n)[i] == t.take(n)[i]);
            }
        }
        lemma_chain_prefix(s, t, n - 1);
        assert(s.take(n)[n - 1] == t.take(n)[n - 1]);
        assert(s.take(n)[n - 1] == s[n - 1]);
        assert(t.take(n)[n - 1] == t[n - 1]);
        assert(s[n - 1] == t[n - 1]);
        if n >= 2 {
            assert(s.take(n)[n - 2] == t.take(n)[n - 2]);
            assert(s.take(n)[n - 2] == s[n - 2]);
            assert(t.take(n)[n - 2] == t[n - 2]);
            assert(s[n - 2] == t[n - 2]);
        }
        assert(expected_previous(s, n - 1) == expected_previous(t, n - 1));
        assert(event_check(s, n - 1) == event_check(t, n - 1));
    }
}

/// Every event before a passing point passes its own check.
pub proof fn lemma_chain_ok_at(s: Seq<AuditEvent>, n: int, i: int)
    requires
        chain_upto(s, n) is Ok,
        0 <= i < n,
    ensures
        event_check(s, i) is Ok,
    decreases n,
{
    if i < n - 1 {
        lemma_chain_ok_at(s, n - 1, i);
    }
}

/// Sixty-four zeros.
fn zeros() -> (res: String)
    ensures
        res@ == zero_hash(),
{
    let mut bytes: Vec<u8> = Vec::new();
    let mut i: usize = 0;
    while i < 64
        invariant
            0 <= i <= 64,
            bytes@.len() == i,
            forall|k: int| 0 <= k < i ==> bytes@[k] == 48u8,
        decreases 64 - i,
    {
        bytes.push(48);
        i = i + 1;
    }
    assert(all_ascii(bytes@));
    let res = ascii_string(bytes);
    assert(res@ =~= zero_hash());
    res
}

impl AuditEvent {
    /// The hash of the event's canonical text.
    pub fn calculate_hash(&self) -> (res: String)
        ensures
            res@ == event_hash_spec(self),
    {
        let mut canonical: Vec<u8> = Vec::new();
        push_str(&mut canonical, "acm.audit-event.v1|");
        push_dec(&mut canonical, self.sequence);
        canonical.push(124);
        push_json_i64(&mut canonical, self.occurred_at);
        canonical.push(124);
        push_str(&mut canonical, self.kind.as_str());
        canonical.push(124);
        push_str(&mut canonical, self.actor_id.as_str());
        canonical.push(124);
        push_str(&mut canonical, self.subject_id.as_str());
        canonical.push(124);
        push_str(&mut canonical, self.previous_hash.as_str());
        assert(canonical@ =~= event_canonical_parts(
            self.sequence,
            self.occurred_at,
            self.kind@,
            self.actor_id@,
            self.subject_id@,
            self.previous_hash@,
        ));
        let digest = blake3_hash(&canonical);
        hex(&digest)
    }

    /// The event that follows `previous` (or starts a chain): the next
    /// sequence number, linked to the previous event's hash, and hashed.
    pub fn append(
        previous: Option<&AuditEvent>,
        occurred_at: i64,
        kind: String,
        actor_id: String,
        subject_id: String,
    ) -> (res: Self)
        requires
            previous matches Some(p) ==> p.sequence < u64::MAX,
        ensures
            res.sequence == (match previous {
                Some(p) => p.sequence + 1,
                None => 0,
            }),
            res.previous_hash@ == (match previous {
                Some(p) => p.event_hash@,
                None => zero_hash(),
            }),
            res.occurred_at == occurred_at,
            res.kind == kind,
            res.actor_id == actor_id,
            res.subject_id == subject_id,
            res.event_hash@ == event_hash_spec(&res),
    {
        let sequence = match previous {
            Some(p) => p.sequence + 1,
            None => 0,
        };
        let previous_hash = match previous {
            Some(p) => p.event_hash.clone(),
            None => zeros(),
        };
        let mut event = AuditEvent {
            sequence,
            occurred_at,
            kind,
            actor_id,
            subject_id,
            previous_hash,
            event_hash: String::new(),
        };
        event.event_hash = event.calculate_hash();
        event
    }
}

/// Checks that events are numbered from zero, each links to the hash of the
/// one before it, and each carries its own hash.
pub fn verify_chain(events: &[AuditEvent]) -> (res: Result<(), AuditError>)
    ensures
        res == chain_outcome(events@),
{
    let mut index: usize = 0;
    while index < events.len()
        invariant
            0 <= index <= events@.len(),
            chain_upto(events@, index as int) is Ok,
        decreases events@.len() - index,
    {
        let event = &events[index];
        if event.sequence != index as u64 {
            proof {
                lemma_chain_err_stays(events@, index + 1, events@.len() as int);
            }
            return Err(AuditError::Sequence);
        }
        let linked = if index == 0 {
            let z = zeros();
            str_equal(event.previous_hash.as_str(), z.as_str())
        } else {
            str_equal(event.previous_hash.as_str(), events[index - 1].event_hash.as_str())
        };
        let own = event.calculate_hash();
        if !linked || !str_equal(event.event_hash.as_str(), own.as_str()) {
            proof {
                lemma_chain_err_stays(events@, index + 1, events@.len() as int);
            }
            return Err(AuditError::Chain);
        }
        index = index + 1;
    }
    Ok(())
}

/// The root over no events.
pub open spec fn empty_root() -> Seq<char> {
    hex_chars(blake3_digest(utf8("acm.audit.empty.v1"@)))
}

/// What `merkle_root` answers: each leaf the digest of an event's hash.
pub open spec fn audit_root_spec(events: Seq<AuditEvent>) -> Seq<char> {
    if events.len() == 0 {
        empty_root()
    } else {
        hex_chars(merkle_fold(events.map_values(|e: AuditEvent| blake3_digest(utf8(e.event_hash@)))))
    }
}

/// The Merkle root over the events' hashes, in hex.
pub fn merkle_root(events: &[AuditEvent]) -> (res: String)
    ensures
        res@ == audit_root_spec(events@),
        is_cid_bytes(utf8(res@)),
{
    if events.len() == 0 {
        let mut label: Vec<u8> = Vec::new();
        push_str(&mut label, "acm.audit.empty.v1");
        let digest = blake3_hash(&label);
        proof {
            lemma_hex_is_cid(digest@);
        }
        return hex(&digest);
    }
    let mut leaves: Vec<[u8; 32]> = Vec::new();
    let mut i: usize = 0;
    while i < events.len()
        invariant
            0 <= i <= events@.len(),
            node_views(leaves@) == events@.take(i as int).map_values(
                |e: AuditEvent| blake3_digest(utf8(e.event_hash@)),
            ),
        decreases events@.len() - i,
    {
        let ghost before = leaves@;
        let leaf = blake3_hash(events[i].event_hash.as_str().as_bytes());
        leaves.push(leaf);
        proof {
            let f = |e: AuditEvent| blake3_digest(utf8(e.event_hash@));
            assert(node_views(leaves@) =~= node_views(before).push(leaf@));
            assert(events@.take(i + 1) =~= events@.take(i as int).push(events@[i as int]));
            assert(events@.take(i + 1).map_values(f) =~= events@.take(i as int).map_values(
                f,
            ).push(f(events@[i as int])));
        }
        i = i + 1;
    }
    assert(events@.take(events@.len() as int) =~= events@);
    let root = merkle_root_of(leaves);
    proof {
        lemma_hex_is_cid(root@);
    }
    hex(&root)
}

/// Appending to a valid chain the event that `append` makes from its last
/// event (or from nothing, for an empty chain) gives a valid chain.
pub proof fn law_append_extends_chain(s: Seq<AuditEvent>, e: AuditEvent)
    requires
        chain_outcome(s) is Ok,
        e.sequence == s.len(),
        e.previous_hash@ == (if s.len() == 0 {
            zero_hash()
        } else {
            s.last().event_hash@
        }),
        e.event_hash@ == event_hash_spec(&e),
    ensures
        chain_outcome(s.push(e)) is Ok,
{
    let t = s.push(e);
    assert(t.take(s.len() as int) =~= s.take(s.len() as int));
    lemma_chain_prefix(s, t, s.len() as int);
    assert(t[s.len() as int] == e);
    if s.len() > 0 {
        assert(t[s.len() - 1] == s.last());
    }
}

/// A valid chain stays valid when cut short: every prefix of a valid chain
/// is valid.
pub proof fn law_chain_prefix_valid(s: Seq<AuditEvent>, n: int)
    requires
        chain_outcome(s) is Ok,
        0 <= n <= s.len(),
    ensures
        chain_outcome(s.take(n)) is Ok,
{
    if chain_upto(s, n) is Err {
        lemma_chain_err_stays(s, n, s.len() as int);
    }
    assert(s.take(n).take(n) =~= s.take(n));
    lemma_chain_prefix(s.take(n), s, n);
}

} // verus!
