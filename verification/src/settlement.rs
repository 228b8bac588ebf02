//! Settlement: a payer's signed instruction that allocates a capability's
//! price exactly, and an operator's signed receipt of what the rail did.
use vstd::prelude::*;
use crate::text::{utf8, is_cid, is_cid_bytes, has_prefix, starts_with, push_bytes, str_equal,
    str_lt, str_less, hex_chars, is_blank, is_blank_text, bytes_eq};
use crate::json::{json_text, json_byte_array, json_int, dec, push_json_str, push_json_byte_array,
    push_json_i64, push_dec, push_json_key, json_join, lemma_join_push};
use crate::order::{sort_by, adjacent_sorted, lemma_insert_by_at};
use crate::hashing::blake3_digest;
use crate::identity::{Identity, IdentityError, signature_outcome, verify_signature,
    prefixed_digest};
use crate::signing::{ed25519_public_key_of, ed25519_signature_of, ed25519_verifies,
    ed25519_key_decodes};
use crate::capability::{CapabilityManifest, CapabilityError, manifest_verify_outcome, splits_fit,
    allocation_amount};

verus! {

/// One recipient's amount.
#[derive(Debug)]
pub struct SettlementAllocation {
    pub recipient_id: String,
    pub amount_minor: u64,
}

/// A payer's signed settlement instruction.
#[derive(Debug)]
pub struct SettlementInstruction {
    pub instruction_version: u16,
    pub instruction_id: String,
    pub capability_id: String,
    pub execution_id: String,
    pub currency: String,
    pub total_minor: u64,
    pub allocations: Vec<SettlementAllocation>,
    pub idempotency_key: String,
    pub issued_at: i64,
    pub expires_at: i64,
    pub payer_public_key: [u8; 32],
    pub signature: Vec<u8>,
}

/// What the rail did.
#[derive(Clone, Copy, Debug, PartialEq, Eq)]
pub enum SettlementStatus {
    Settled,
    Failed,
    Reversed,
}

impl SettlementStatus {
    /// The snake_case name the wire format uses.
    pub open spec fn wire_name(self) -> Seq<char> {
        match self {
            SettlementStatus::Settled => "settled"@,
            SettlementStatus::Failed => "failed"@,
            SettlementStatus::Reversed => "reversed"@,
        }
    }

    /// The snake_case name the wire format uses.
    pub fn name(&self) -> (res: &'static str)
        ensures
            res@ == self.wire_name(),
    {
        match self {
            SettlementStatus::Settled => "settled",
            SettlementStatus::Failed => "failed",
            SettlementStatus::Reversed => "reversed",
        }
    }
}

/// An operator's signed receipt.
#[derive(Debug)]
pub struct SettlementReceipt {
    pub receipt_version: u16,
    pub receipt_id: String,
    pub instruction_id: String,
    pub rail: String,
    pub rail_reference_hash: String,
    pub status: SettlementStatus,
    pub amount_minor: u64,
    pub currency: String,
    pub occurred_at: i64,
    pub operator_public_key: [u8; 32],
    pub signature: Vec<u8>,
}

/// Why a settlement record was refused.
#[derive(Debug)]
pub enum SettlementError {
    Invalid,
    Allocation,
    Time,
    Operator,
    Signature(IdentityError),
    Capability(CapabilityError),
}

/// Allocations are ordered by recipient.
pub open spec fn allocation_lt() -> spec_fn(SettlementAllocation, SettlementAllocation) -> bool {
    |a: SettlementAllocation, b: SettlementAllocation| str_lt(a.recipient_id@, b.recipient_id@)
}

/// The sum of the amounts.
pub open spec fn amount_total(s: Seq<SettlementAllocation>) -> int
    decreases s.len(),
{
    if s.len() == 0 {
        0
    } else {
        amount_total(s.drop_last()) + s.last().amount_minor
    }
}

/// Allocations are present, named, positive and strictly ordered.
pub open spec fn allocations_ordered(s: Seq<SettlementAllocation>) -> bool {
    &&& s.len() > 0
    &&& adjacent_sorted(s, allocation_lt())
    &&& forall|i: int|
        0 <= i < s.len() ==> (#[trigger] s[i]).recipient_id@.len() > 0 && s[i].amount_minor > 0
}

/// What `SettlementInstruction::validate` answers.
pub open spec fn instruction_validate_outcome(i: &SettlementInstruction, m: &CapabilityManifest) -> Result<
    (),
    SettlementError,
> {
    match manifest_verify_outcome(m) {
        Err(e) => Err(SettlementError::Capability(e)),
        Ok(_) => if amount_total(i.allocations@) > u64::MAX {
            Err(SettlementError::Allocation)
        } else if i.instruction_version != 1 || i.capability_id@ != m.capability_id@ || !has_prefix(
            utf8(i.execution_id@),
            utf8("exe_"@),
        ) || i.currency@ != m.currency@ || i.total_minor != m.price_minor || amount_total(
            i.allocations@,
        ) != i.total_minor || !allocations_ordered(i.allocations@) || utf8(
            i.idempotency_key@,
        ).len() < 16 || i.issued_at < 0 || i.expires_at <= i.issued_at {
            Err(SettlementError::Allocation)
        } else {
            Ok(())
        },
    }
}

/// One allocation as a JSON object.
pub open spec fn allocation_json(a: SettlementAllocation) -> Seq<u8> {
    seq![123u8] + json_text("recipient_id"@) + seq![58u8] + json_text(a.recipient_id@) + seq![44u8]
        + json_text("amount_minor"@) + seq![58u8] + dec(a.amount_minor as nat) + seq![125u8]
}

/// The allocations as a JSON array.
pub open spec fn allocations_json(s: Seq<SettlementAllocation>) -> Seq<u8> {
    seq![91u8] + json_join(s.map_values(|x: SettlementAllocation| allocation_json(x))) + seq![93u8]
}

/// The JSON tuple whose digest is the instruction id.
pub open spec fn instruction_identity_spec(i: &SettlementInstruction) -> Seq<u8> {
    seq![91u8] + json_text("acm.settlement-instruction.v1"@) + seq![44u8] + dec(
        i.instruction_version as nat,
    ) + seq![44u8] + json_text(i.capability_id@) + seq![44u8] + json_text(i.execution_id@) + seq![
        44u8,
    ] + json_text(i.currency@) + seq![44u8] + dec(i.total_minor as nat) + seq![44u8]
        + allocations_json(i.allocations@) + seq![44u8] + json_text(i.idempotency_key@) + seq![
        44u8,
    ] + json_int(i.issued_at as int) + seq![44u8] + json_int(i.expires_at as int) + seq![44u8]
        + json_byte_array(i.payer_public_key@) + seq![93u8]
}

/// The bytes the payer signs.
pub open spec fn instruction_canonical_spec(i: &SettlementInstruction) -> Seq<u8> {
    instruction_identity_spec(i) + utf8(i.instruction_id@)
}

/// The id an instruction must carry.
pub open spec fn instruction_id_spec(i: &SettlementInstruction) -> Seq<char> {
    "seti_"@ + hex_chars(blake3_digest(instruction_identity_spec(i)))
}

/// What `SettlementInstruction::verify` answers.
pub open spec fn instruction_verify_outcome(
    i: &SettlementInstruction,
    m: &CapabilityManifest,
    now: i64,
) -> Result<(), SettlementError> {
    match instruction_validate_outcome(i, m) {
        Err(e) => Err(e),
        Ok(_) => if now < i.issued_at || now > i.expires_at {
            Err(SettlementError::Time)
        } else if i.instruction_id@ != instruction_id_spec(i) {
            Err(SettlementError::Invalid)
        } else {
            match signature_outcome(i.payer_public_key@, instruction_canonical_spec(i), i.signature@) {
                Err(e) => Err(SettlementError::Signature(e)),
                Ok(_) => Ok(()),
            }
        },
    }
}

/// Whether allocation `a` sorts before allocation `b`.
fn allocation_less(a: &SettlementAllocation, b: &SettlementAllocation) -> (res: bool)
    ensures
        res == (allocation_lt())(*a, *b),
{
    str_less(a.recipient_id.as_str(), b.recipient_id.as_str())
}

/// Where `x` goes: before the first allocation it sorts before.
fn allocation_position(sorted: &Vec<SettlementAllocation>, x: &SettlementAllocation) -> (j: usize)
    ensures
        0 <= j <= sorted@.len(),
        forall|q: int| 0 <= q < j ==> !(allocation_lt())(*x, #[trigger] sorted@[q]),
        j < sorted@.len() ==> (allocation_lt())(*x, sorted@[j as int]),
{
    let mut j: usize = 0;
    while j < sorted.len()
        invariant
            0 <= j <= sorted@.len(),
            forall|q: int| 0 <= q < j ==> !(allocation_lt())(*x, #[trigger] sorted@[q]),
        decreases sorted@.len() - j,
    {
        if allocation_less(x, &sorted[j]) {
            return j;
        }
        j = j + 1;
    }
    j
}

/// Sorts allocations by recipient, keeping equal ones in order.
fn sort_allocations(items: Vec<SettlementAllocation>) -> (res: Vec<SettlementAllocation>)
    ensures
        res@ == sort_by(items@, allocation_lt()),
{
    let ghost original = items@;
    let total_len = items.len();
    let mut rest = items;
    let mut res: Vec<SettlementAllocation> = Vec::new();
    let mut k: usize = 0;
    while rest.len() > 0
        invariant
            k <= original.len(),
            original.len() == total_len,
            rest@.len() + k == original.len(),
            rest@ == original.skip(k as int),
            res@ == sort_by(original.take(k as int), allocation_lt()),
        decreases rest@.len(),
    {
        let x = rest.remove(0);
        let j = allocation_position(&res, &x);
        let ghost before = res@;
        proof {
            lemma_insert_by_at(before, x, allocation_lt(), j as int);
            assert(original.take(k + 1).drop_last() =~= original.take(k as int));
            assert(original.take(k + 1).last() == x);
        }
        res.insert(j, x);
        assert(res@ =~= before.take(j as int).push(x) + before.skip(j as int));
        k = k + 1;
        assert(rest@ =~= original.skip(k as int));
    }
    assert(original.take(k as int) =~= original);
    res
}

/// Appends one allocation as a JSON object.
fn push_allocation_json(out: &mut Vec<u8>, a: &SettlementAllocation)
    ensures
        final(out)@ == old(out)@ + allocation_json(*a),
{
    out.push(123);
    push_json_key(out, "recipient_id");
    push_json_str(out, a.recipient_id.as_str());
    out.push(44);
    push_json_key(out, "amount_minor");
    push_dec(out, a.amount_minor);
    out.push(125);
    assert(out@ =~= old(out)@ + allocation_json(*a));
}

/// Appends the allocations as a JSON array.
fn push_allocations_json(out: &mut Vec<u8>, v: &Vec<SettlementAllocation>)
    ensures
        final(out)@ == old(out)@ + allocations_json(v@),
{
    let ghost parts = v@.map_values(|x: SettlementAllocation| allocation_json(x));
    out.push(91);
    let mut i: usize = 0;
    while i < v.len()
        invariant
            0 <= i <= v@.len(),
            parts == v@.map_values(|x: SettlementAllocation| allocation_json(x)),
            out@ == old(out)@ + seq![91u8] + json_join(parts.take(i as int)),
        decreases v@.len() - i,
    {
        if i > 0 {
            out.push(44);
        }
        push_allocation_json(out, &v[i]);
        proof {
            lemma_join_push(parts.take(i as int), parts[i as int]);
            assert(parts.take(i as int).push(parts[i as int]) =~= parts.take(i + 1));
        }
        i = i + 1;
    }
    out.push(93);
    assert(parts.take(v@.len() as int) =~= parts);
    assert(out@ =~= old(out)@ + allocations_json(v@));
}

proof fn lemma_total_prefix_monotone(s: Seq<SettlementAllocation>, k: int)
    requires
        0 <= k <= s.len(),
    ensures
        amount_total(s.take(k)) <= amount_total(s),
        amount_total(s.take(k)) >= 0,
    decreases s.len() - k,
{
    if k < s.len() {
        lemma_total_prefix_monotone(s, k + 1);
        assert(s.take(k + 1).drop_last() =~= s.take(k));
    } else {
        assert(s.take(k) =~= s);
    }
    lemma_total_nonneg(s.take(k));
}

proof fn lemma_total_nonneg(s: Seq<SettlementAllocation>)
    ensures
        amount_total(s) >= 0,
    decreases s.len(),
{
    if s.len() > 0 {
        lemma_total_nonneg(s.drop_last());
    }
}

/// The allocations a manifest's split gives, in split order.
pub open spec fn manifest_allocations(m: &CapabilityManifest) -> Seq<(Seq<char>, int)> {
    Seq::new(
        m.splits@.len(),
        |i: int| (m.splits@[i].recipient_id@, allocation_amount(m.price_minor as int, m.splits@, i)),
    )
}

/// The sum of the amounts, or `None` when it exceeds `u64::MAX`.
fn allocations_sum(v: &Vec<SettlementAllocation>) -> (res: Option<u64>)
    ensures
        res is None <==> amount_total(v@) > u64::MAX,
        res matches Some(t) ==> t as int == amount_total(v@),
{
    let mut total: u64 = 0;
    let mut i: usize = 0;
    while i < v.len()
        invariant
            0 <= i <= v@.len(),
            total as int == amount_total(v@.take(i as int)),
        decreases v@.len() - i,
    {
        proof {
            assert(v@.take(i + 1).drop_last() =~= v@.take(i as int));
        }
        match total.checked_add(v[i].amount_minor) {
            Some(t) => {
                total = t;
            },
            None => {
                proof {
                    lemma_total_prefix_monotone(v@, i as int + 1);
                }
                return None;
            },
        }
        i = i + 1;
    }
    assert(v@.take(v@.len() as int) =~= v@);
    Some(total)
}

/// Whether the allocations are present, named, positive and ordered.
fn allocations_in_order(v: &Vec<SettlementAllocation>) -> (res: bool)
    ensures
        res == allocations_ordered(v@),
{
    let n = v.len();
    if n == 0 {
        return false;
    }
    let mut i: usize = 0;
    while i < n
        invariant
            n == v@.len(),
            n > 0,
            0 <= i <= n,
            forall|q: int|
                0 <= q < i ==> (#[trigger] v@[q]).recipient_id@.len() > 0 && v@[q].amount_minor > 0,
            forall|q: int| 0 <= q < i && q < n - 1 ==> (allocation_lt())(#[trigger] v@[q], v@[q + 1]),
        decreases n - i,
    {
        let a = &v[i];
        if a.recipient_id.as_str().is_empty() || a.amount_minor == 0 {
            return false;
        }
        if i + 1 < n && !allocation_less(a, &v[i + 1]) {
            return false;
        }
        i = i + 1;
    }
    true
}

impl SettlementInstruction {
    /// The instruction's fields against the manifest.
    pub fn validate(&self, manifest: &CapabilityManifest) -> (res: Result<(), SettlementError>)
        requires
            splits_fit(manifest),
        ensures
            res == instruction_validate_outcome(self, manifest),
    {
        match manifest.verify() {
            Err(e) => {
                return Err(SettlementError::Capability(e));
            },
            Ok(_) => {},
        }
        let total = match allocations_sum(&self.allocations) {
            Some(t) => t,
            None => {
                return Err(SettlementError::Allocation);
            },
        };
        let ordered = allocations_in_order(&self.allocations);
        if self.instruction_version != 1 || !str_equal(
            self.capability_id.as_str(),
            manifest.capability_id.as_str(),
        ) || !starts_with(self.execution_id.as_str(), "exe_") || !str_equal(
            self.currency.as_str(),
            manifest.currency.as_str(),
        ) || self.total_minor != manifest.price_minor || total != self.total_minor || !ordered
            || self.idempotency_key.as_str().as_bytes().len() < 16 || self.issued_at < 0
            || self.expires_at <= self.issued_at {
            return Err(SettlementError::Allocation);
        }
        Ok(())
    }

    /// The JSON tuple whose digest is the instruction id.
    pub fn identity_bytes(&self) -> (res: Vec<u8>)
        ensures
            res@ == instruction_identity_spec(self),
    {
        let mut out: Vec<u8> = Vec::new();
        out.push(91);
        push_json_str(&mut out, "acm.settlement-instruction.v1");
        out.push(44);
        push_dec(&mut out, self.instruction_version as u64);
        out.push(44);
        push_json_str(&mut out, self.capability_id.as_str());
        out.push(44);
        push_json_str(&mut out, self.execution_id.as_str());
        out.push(44);
        push_json_str(&mut out, self.currency.as_str());
        out.push(44);
        push_dec(&mut out, self.total_minor);
        out.push(44);
        push_allocations_json(&mut out, &self.allocations);
        out.push(44);
        push_json_str(&mut out, self.idempotency_key.as_str());
        out.push(44);
        push_json_i64(&mut out, self.issued_at);
        out.push(44);
        push_json_i64(&mut out, self.expires_at);
        out.push(44);
        push_json_byte_array(&mut out, &self.payer_public_key);
        out.push(93);
        assert(out@ =~= instruction_identity_spec(self));
        out
    }

    /// The bytes the payer signs.
    pub fn canonical_bytes(&self) -> (res: Vec<u8>)
        ensures
            res@ == instruction_canonical_spec(self),
    {
        let mut out = self.identity_bytes();
        push_bytes(&mut out, self.instruction_id.as_str().as_bytes());
        out
    }

    /// Issues an instruction for a verified manifest: the manifest's
    /// allocations, ordered by recipient, checked, identified and signed.
    pub fn issue(
        manifest: &CapabilityManifest,
        execution_id: String,
        idempotency_key: String,
        issued_at: i64,
        expires_at: i64,
        payer: &Identity,
    ) -> (res: Result<Self, SettlementError>)
        requires
            splits_fit(manifest),
        ensures
            manifest_verify_outcome(manifest) matches Err(e) ==> res
                == Err::<SettlementInstruction, SettlementError>(SettlementError::Capability(e)),
            res matches Ok(i) ==> {
                &&& i.instruction_version == 1
                &&& i.capability_id@ == manifest.capability_id@
                &&& i.execution_id == execution_id
                &&& i.currency@ == manifest.currency@
                &&& i.total_minor == manifest.price_minor
                &&& i.allocations@.map_values(
                    |a: SettlementAllocation| (a.recipient_id@, a.amount_minor as int),
                ) == sort_by(
                    manifest_allocations(manifest),
                    |a: (Seq<char>, int), b: (Seq<char>, int)| str_lt(a.0, b.0),
                )
                &&& i.idempotency_key == idempotency_key
                &&& i.issued_at == issued_at
                &&& i.expires_at == expires_at
                &&& i.payer_public_key@ == ed25519_public_key_of(payer.seed())
                &&& ed25519_key_decodes(i.payer_public_key@)
                &&& instruction_validate_outcome(&i, manifest) is Ok
                &&& i.instruction_id@ == instruction_id_spec(&i)
                &&& i.signature@ == ed25519_signature_of(
                    payer.seed(),
                    instruction_canonical_spec(&i),
                )
                &&& i.signature@.len() == 64
                &&& ed25519_verifies(
                    i.payer_public_key@,
                    instruction_canonical_spec(&i),
                    i.signature@,
                )
            },
            manifest_verify_outcome(manifest) is Ok ==> (res is Err ==> res
                == Err::<SettlementInstruction, SettlementError>(SettlementError::Allocation)),
    {
        match manifest.verify() {
            Err(e) => {
                return Err(SettlementError::Capability(e));
            },
            Ok(_) => {},
        }
        let pairs = match manifest.allocations() {
            Ok(v) => v,
            Err(e) => {
                return Err(SettlementError::Capability(e));
            },
        };
        let mut items: Vec<SettlementAllocation> = Vec::new();
        let mut k: usize = 0;
        while k < pairs.len()
            invariant
                0 <= k <= pairs@.len(),
                items@.len() == k,
                forall|q: int|
                    0 <= q < k ==> (#[trigger] items@[q]).recipient_id@ == pairs@[q].0@
                        && items@[q].amount_minor == pairs@[q].1,
            decreases pairs@.len() - k,
        {
            items.push(
                SettlementAllocation {
                    recipient_id: pairs[k].0.clone(),
                    amount_minor: pairs[k].1,
                },
            );
            k = k + 1;
        }
        let ghost unsorted = items@;
        let allocations = sort_allocations(items);
        proof {
            lemma_sort_maps(
                unsorted,
                |a: SettlementAllocation| (a.recipient_id@, a.amount_minor as int),
            );
            assert(unsorted.map_values(
                |a: SettlementAllocation| (a.recipient_id@, a.amount_minor as int),
            ) =~= manifest_allocations(manifest));
        }
        let mut instruction = SettlementInstruction {
            instruction_version: 1,
            instruction_id: String::new(),
            capability_id: manifest.capability_id.clone(),
            execution_id,
            currency: manifest.currency.clone(),
            total_minor: manifest.price_minor,
            allocations,
            idempotency_key,
            issued_at,
            expires_at,
            payer_public_key: payer.public_key(),
            signature: Vec::new(),
        };
        match instruction.validate(manifest) {
            Err(e) => {
                return Err(e);
            },
            Ok(_) => {},
        }
        let identity = instruction.identity_bytes();
        instruction.instruction_id = prefixed_digest("seti_", &identity);
        let canonical = instruction.canonical_bytes();
        let signature = payer.sign(&canonical);
        let mut sig: Vec<u8> = Vec::new();
        push_bytes(&mut sig, &signature);
        instruction.signature = sig;
        Ok(instruction)
    }

    /// Checks the instruction against the manifest, its time window at
    /// `now`, its id and the payer's signature.
    pub fn verify(&self, manifest: &CapabilityManifest, now: i64) -> (res: Result<
        (),
        SettlementError,
    >)
        requires
            splits_fit(manifest),
        ensures
            res == instruction_verify_outcome(self, manifest, now),
    {
        match self.validate(manifest) {
            Err(e) => {
                return Err(e);
            },
            Ok(_) => {},
        }
        if now < self.issued_at || now > self.expires_at {
            return Err(SettlementError::Time);
        }
        let identity = self.identity_bytes();
        let expected = prefixed_digest("seti_", &identity);
        if !str_equal(self.instruction_id.as_str(), expected.as_str()) {
            return Err(SettlementError::Invalid);
        }
        let canonical = self.canonical_bytes();
        match verify_signature(&self.payer_public_key, &canonical, self.signature.as_slice()) {
            Err(e) => Err(SettlementError::Signature(e)),
            Ok(_) => Ok(()),
        }
    }
}

/// Sorting by recipient commutes with viewing allocations as pairs.
pub proof fn lemma_sort_maps(
    s: Seq<SettlementAllocation>,
    f: spec_fn(SettlementAllocation) -> (Seq<char>, int),
)
    requires
        f == (|a: SettlementAllocation| (a.recipient_id@, a.amount_minor as int)),
    ensures
        sort_by(s, allocation_lt()).map_values(f) == sort_by(
            s.map_values(f),
            |a: (Seq<char>, int), b: (Seq<char>, int)| str_lt(a.0, b.0),
        ),
    decreases s.len(),
{
    if s.len() > 0 {
        lemma_sort_maps(s.drop_last(), f);
        assert(s.map_values(f).drop_last() =~= s.drop_last().map_values(f));
        lemma_insert_maps(sort_by(s.drop_last(), allocation_lt()), s.last(), f);
    }
}

/// Inserting by recipient commutes with viewing allocations as pairs.
pub proof fn lemma_insert_maps(
    s: Seq<SettlementAllocation>,
    x: SettlementAllocation,
    f: spec_fn(SettlementAllocation) -> (Seq<char>, int),
)
    requires
        f == (|a: SettlementAllocation| (a.recipient_id@, a.amount_minor as int)),
    ensures
        crate::order::insert_by(s, x, allocation_lt()).map_values(f) == crate::order::insert_by(
            s.map_values(f),
            f(x),
            |a: (Seq<char>, int), b: (Seq<char>, int)| str_lt(a.0, b.0),
        ),
    decreases s.len(),
{
    if s.len() == 0 {
        assert(crate::order::insert_by(s, x, allocation_lt()).map_values(f) =~= seq![f(x)]);
    } else if (allocation_lt())(x, s[0]) {
        assert(crate::order::insert_by(s, x, allocation_lt()).map_values(f) =~= seq![f(x)]
            + s.map_values(f));
    } else {
        lemma_insert_maps(s.drop_first(), x, f);
        assert(s.map_values(f).drop_first() =~= s.drop_first().map_values(f));
        assert(crate::order::insert_by(s, x, allocation_lt()).map_values(f) =~= seq![f(s[0])]
            + crate::order::insert_by(s.drop_first(), x, allocation_lt()).map_values(f));
    }
}


/// What `SettlementReceipt::validate_shape` answers.
pub open spec fn receipt_shape(r: &SettlementReceipt, i: &SettlementInstruction) -> bool {
    let amount_valid = match r.status {
        SettlementStatus::Settled | SettlementStatus::Reversed => r.amount_minor == i.total_minor,
        SettlementStatus::Failed => r.amount_minor == 0,
    };
    &&& r.receipt_version == 1
    &&& r.instruction_id@ == i.instruction_id@
    &&& !is_blank_text(r.rail@)
    &&& is_cid_bytes(utf8(r.rail_reference_hash@))
    &&& r.currency@ == i.currency@
    &&& r.occurred_at >= i.issued_at
    &&& amount_valid
}

/// The JSON tuple whose digest is the receipt id.
pub open spec fn receipt_identity_spec(r: &SettlementReceipt) -> Seq<u8> {
    seq![91u8] + json_text("acm.settlement-receipt.v1"@) + seq![44u8] + dec(
        r.receipt_version as nat,
    ) + seq![44u8] + json_text(r.instruction_id@) + seq![44u8] + json_text(r.rail@) + seq![44u8]
        + json_text(r.rail_reference_hash@) + seq![44u8] + json_text(r.status.wire_name()) + seq![
        44u8,
    ] + dec(r.amount_minor as nat) + seq![44u8] + json_text(r.currency@) + seq![44u8] + json_int(
        r.occurred_at as int,
    ) + seq![44u8] + json_byte_array(r.operator_public_key@) + seq![93u8]
}

/// The bytes the operator signs.
pub open spec fn receipt_canonical_spec(r: &SettlementReceipt) -> Seq<u8> {
    receipt_identity_spec(r) + utf8(r.receipt_id@)
}

/// The id a receipt must carry.
pub open spec fn receipt_id_spec(r: &SettlementReceipt) -> Seq<char> {
    "setr_"@ + hex_chars(blake3_digest(receipt_identity_spec(r)))
}

/// What `SettlementReceipt::verify` answers.
pub open spec fn receipt_verify_outcome(
    r: &SettlementReceipt,
    i: &SettlementInstruction,
    trusted: Seq<Seq<u8>>,
) -> Result<(), SettlementError> {
    if !receipt_shape(r, i) {
        Err(SettlementError::Invalid)
    } else if r.receipt_id@ != receipt_id_spec(r) {
        Err(SettlementError::Invalid)
    } else if !trusted.contains(r.operator_public_key@) {
        Err(SettlementError::Operator)
    } else {
        match signature_outcome(r.operator_public_key@, receipt_canonical_spec(r), r.signature@) {
            Err(e) => Err(SettlementError::Signature(e)),
            Ok(_) => Ok(()),
        }
    }
}

/// The views of trusted keys.
pub open spec fn key_views(keys: Seq<[u8; 32]>) -> Seq<Seq<u8>> {
    keys.map_values(|k: [u8; 32]| k@)
}

impl SettlementReceipt {
    /// The receipt's shape against its instruction: a failed settlement
    /// moves nothing, a settled or reversed one moves the instruction total.
    pub fn validate_shape(&self, instruction: &SettlementInstruction) -> (res: Result<
        (),
        SettlementError,
    >)
        ensures
            res is Ok <==> receipt_shape(self, instruction),
            res is Err ==> res == Err::<(), SettlementError>(SettlementError::Invalid),
    {
        let amount_valid = match self.status {
            SettlementStatus::Settled => self.amount_minor == instruction.total_minor,
            SettlementStatus::Reversed => self.amount_minor == instruction.total_minor,
            SettlementStatus::Failed => self.amount_minor == 0,
        };
        if self.receipt_version != 1 || !str_equal(
            self.instruction_id.as_str(),
            instruction.instruction_id.as_str(),
        ) || is_blank(self.rail.as_str()) || !is_cid(self.rail_reference_hash.as_str())
            || !str_equal(self.currency.as_str(), instruction.currency.as_str()) || self.occurred_at
            < instruction.issued_at || !amount_valid {
            return Err(SettlementError::Invalid);
        }
        Ok(())
    }

    /// The JSON tuple whose digest is the receipt id.
    pub fn identity_bytes(&self) -> (res: Vec<u8>)
        ensures
            res@ == receipt_identity_spec(self),
    {
        let mut out: Vec<u8> = Vec::new();
        out.push(91);
        push_json_str(&mut out, "acm.settlement-receipt.v1");
        out.push(44);
        push_dec(&mut out, self.receipt_version as u64);
        out.push(44);
        push_json_str(&mut out, self.instruction_id.as_str());
        out.push(44);
        push_json_str(&mut out, self.rail.as_str());
        out.push(44);
        push_json_str(&mut out, self.rail_reference_hash.as_str());
        out.push(44);
        push_json_str(&mut out, self.status.name());
        out.push(44);
        push_dec(&mut out, self.amount_minor);
        out.push(44);
        push_json_str(&mut out, self.currency.as_str());
        out.push(44);
        push_json_i64(&mut out, self.occurred_at);
        out.push(44);
        push_json_byte_array(&mut out, &self.operator_public_key);
        out.push(93);
        assert(out@ =~= receipt_identity_spec(self));
        out
    }

    /// The bytes the operator signs.
    pub fn canonical_bytes(&self) -> (res: Vec<u8>)
        ensures
            res@ == receipt_canonical_spec(self),
    {
        let mut out = self.identity_bytes();
        push_bytes(&mut out, self.receipt_id.as_str().as_bytes());
        out
    }

    /// Issues a receipt for an instruction: shape checked, id derived from
    /// the identity bytes, signed by the operator.
    pub fn issue(
        instruction: &SettlementInstruction,
        rail: String,
        rail_reference_hash: String,
        status: SettlementStatus,
        amount_minor: u64,
        occurred_at: i64,
        operator: &Identity,
    ) -> (res: Result<Self, SettlementError>)
        ensures
            res is Err ==> res == Err::<SettlementReceipt, SettlementError>(
                SettlementError::Invalid,
            ),
            res matches Ok(r) ==> {
                &&& r.receipt_version == 1
                &&& r.instruction_id@ == instruction.instruction_id@
                &&& r.rail == rail
                &&& r.rail_reference_hash == rail_reference_hash
                &&& r.status == status
                &&& r.amount_minor == amount_minor
                &&& r.currency@ == instruction.currency@
                &&& r.occurred_at == occurred_at
                &&& r.operator_public_key@ == ed25519_public_key_of(operator.seed())
                &&& ed25519_key_decodes(r.operator_public_key@)
                &&& receipt_shape(&r, instruction)
                &&& r.receipt_id@ == receipt_id_spec(&r)
                &&& r.signature@ == ed25519_signature_of(
                    operator.seed(),
                    receipt_canonical_spec(&r),
                )
                &&& r.signature@.len() == 64
                &&& ed25519_verifies(
                    r.operator_public_key@,
                    receipt_canonical_spec(&r),
                    r.signature@,
                )
            },
            ({
                let amount_valid = match status {
                    SettlementStatus::Settled | SettlementStatus::Reversed => amount_minor
                        == instruction.total_minor,
                    SettlementStatus::Failed => amount_minor == 0,
                };
                res is Ok <==> (!is_blank_text(rail@) && is_cid_bytes(
                    utf8(rail_reference_hash@),
                ) && occurred_at >= instruction.issued_at && amount_valid)
            }),
    {
        let mut receipt = SettlementReceipt {
            receipt_version: 1,
            receipt_id: String::new(),
            instruction_id: instruction.instruction_id.clone(),
            rail,
            rail_reference_hash,
            status,
            amount_minor,
            currency: instruction.currency.clone(),
            occurred_at,
            operator_public_key: operator.public_key(),
            signature: Vec::new(),
        };
        match receipt.validate_shape(instruction) {
            Err(e) => {
                return Err(e);
            },
            Ok(_) => {},
        }
        let identity = receipt.identity_bytes();
        receipt.receipt_id = prefixed_digest("setr_", &identity);
        let canonical = receipt.canonical_bytes();
        let signature = operator.sign(&canonical);
        let mut sig: Vec<u8> = Vec::new();
        push_bytes(&mut sig, &signature);
        receipt.signature = sig;
        Ok(receipt)
    }

    /// Checks shape, id, that the operator is trusted, and its signature.
    pub fn verify(&self, instruction: &SettlementInstruction, trusted_operator_public_keys: &[[u8; 32]]) -> (res: Result<
        (),
        SettlementError,
    >)
        ensures
            res == receipt_verify_outcome(self, instruction, key_views(trusted_operator_public_keys@)),
    {
        match self.validate_shape(instruction) {
            Err(e) => {
                return Err(e);
            },
            Ok(_) => {},
        }
        let identity = self.identity_bytes();
        let expected = prefixed_digest("setr_", &identity);
        if !str_equal(self.receipt_id.as_str(), expected.as_str()) {
            return Err(SettlementError::Invalid);
        }
        let mut trusted = false;
        let mut k: usize = 0;
        while k < trusted_operator_public_keys.len()
            invariant
                0 <= k <= trusted_operator_public_keys@.len(),
                trusted == key_views(trusted_operator_public_keys@).take(k as int).contains(
                    self.operator_public_key@,
                ),
            decreases trusted_operator_public_keys@.len() - k,
        {
            let same = bytes_eq(&trusted_operator_public_keys[k], &self.operator_public_key);
            proof {
                let kv = key_views(trusted_operator_public_keys@);
                assert(kv.take(k + 1) =~= kv.take(k as int).push(kv[k as int]));
                if kv.take(k + 1).contains(self.operator_public_key@) {
                    let w = choose|w: int| 0 <= w < k + 1 && #[trigger] kv.take(k + 1)[w] == self.operator_public_key@;
                    if w < k {
                        assert(kv.take(k as int)[w] == self.operator_public_key@);
                    }
                }
                if kv.take(k as int).contains(self.operator_public_key@) {
                    let w = choose|w: int| 0 <= w < k && #[trigger] kv.take(k as int)[w] == self.operator_public_key@;
                    assert(kv.take(k + 1)[w] == self.operator_public_key@);
                }
                if same {
                    assert(kv.take(k + 1)[k as int] == self.operator_public_key@);
                }
            }
            trusted = trusted || same;
            k = k + 1;
        }
        assert(key_views(trusted_operator_public_keys@).take(trusted_operator_public_keys@.len() as int)
            =~= key_views(trusted_operator_public_keys@));
        if !trusted {
            return Err(SettlementError::Operator);
        }
        let canonical = self.canonical_bytes();
        match verify_signature(&self.operator_public_key, &canonical, self.signature.as_slice()) {
            Err(e) => Err(SettlementError::Signature(e)),
            Ok(_) => Ok(()),
        }
    }
}

/// A failed settlement never claims value: a receipt with status `Failed`
/// and a non-zero amount is refused, whoever signs it.
pub proof fn law_failed_receipt_moves_nothing(r: &SettlementReceipt, i: &SettlementInstruction, trusted: Seq<Seq<u8>>)
    requires
        r.status == SettlementStatus::Failed,
        r.amount_minor != 0,
    ensures
        receipt_verify_outcome(r, i, trusted) == Err::<(), SettlementError>(SettlementError::Invalid),
{
}

/// An instruction allocates its total exactly: every valid instruction's
/// amounts sum to the manifest price.
pub proof fn law_instruction_conserves_price(i: &SettlementInstruction, m: &CapabilityManifest)
    requires
        instruction_validate_outcome(i, m) is Ok,
    ensures
        amount_total(i.allocations@) == m.price_minor,
{
}

} // verus!
