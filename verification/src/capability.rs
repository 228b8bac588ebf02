//! Capability manifests: a creator's signed offer with a price and an exact
//! revenue split in basis points.
use vstd::prelude::*;
use crate::text::{utf8, is_cid, is_cid_bytes, str_lt, str_less, str_equal, push_bytes, hex_chars};
use crate::json::{json_text, json_byte_array, json_int, dec, push_json_str, push_json_byte_array,
    push_json_i64, push_dec, push_json_key, lemma_join_push, json_join};
use crate::order::{insert_by, sort_by, adjacent_sorted, lemma_insert_by_at};
use crate::hashing::blake3_digest;
use crate::identity::{Identity, IdentityError, signature_outcome, verify_signature,
    prefixed_digest};
use crate::signing::{ed25519_public_key_of, ed25519_signature_of, ed25519_verifies,
    ed25519_key_decodes};

verus! {

/// What is offered.
#[derive(Clone, Copy, Debug, PartialEq, Eq)]
pub enum OfferingKind {
    Release,
    Access,
    Query,
    CapabilityInvocation,
    ContinuousFeed,
    AttestedResult,
    OutcomeContract,
}

impl OfferingKind {
    /// The snake_case name the wire format uses.
    pub open spec fn wire_name(self) -> Seq<char> {
        match self {
            OfferingKind::Release => "release"@,
            OfferingKind::Access => "access"@,
            OfferingKind::Query => "query"@,
            OfferingKind::CapabilityInvocation => "capability_invocation"@,
            OfferingKind::ContinuousFeed => "continuous_feed"@,
            OfferingKind::AttestedResult => "attested_result"@,
            OfferingKind::OutcomeContract => "outcome_contract"@,
        }
    }

    /// The snake_case name the wire format uses.
    pub fn name(&self) -> (res: &'static str)
        ensures
            res@ == self.wire_name(),
    {
        match self {
            OfferingKind::Release => "release",
            OfferingKind::Access => "access",
            OfferingKind::Query => "query",
            OfferingKind::CapabilityInvocation => "capability_invocation",
            OfferingKind::ContinuousFeed => "continuous_feed",
            OfferingKind::AttestedResult => "attested_result",
            OfferingKind::OutcomeContract => "outcome_contract",
        }
    }
}

/// One recipient's share of the price.
#[derive(Debug)]
pub struct RevenueSplit {
    pub recipient_id: String,
    pub role: String,
    pub basis_points: u16,
}

/// A signed capability offer.
#[derive(Debug)]
pub struct CapabilityManifest {
    pub manifest_version: u16,
    pub capability_id: String,
    pub creator_public_key: [u8; 32],
    pub kind: OfferingKind,
    pub title: String,
    pub package_cid: String,
    pub execution_policy_cid: String,
    pub currency: String,
    pub price_minor: u64,
    pub splits: Vec<RevenueSplit>,
    pub issued_at: i64,
    pub expires_at: i64,
    pub signature: Vec<u8>,
}

/// Why a manifest was refused.
#[derive(Debug)]
pub enum CapabilityError {
    Invalid,
    Splits,
    Signature(IdentityError),
}

/// Splits are ordered by recipient, then role.
pub open spec fn split_lt() -> spec_fn(RevenueSplit, RevenueSplit) -> bool {
    |a: RevenueSplit, b: RevenueSplit|
        str_lt(a.recipient_id@, b.recipient_id@) || (a.recipient_id@ == b.recipient_id@ && str_lt(
            a.role@,
            b.role@,
        ))
}

/// Whether split `a` sorts before split `b`.
pub fn split_less(a: &RevenueSplit, b: &RevenueSplit) -> (res: bool)
    ensures
        res == (split_lt())(*a, *b),
{
    str_less(a.recipient_id.as_str(), b.recipient_id.as_str()) || (str_equal(
        a.recipient_id.as_str(),
        b.recipient_id.as_str(),
    ) && str_less(a.role.as_str(), b.role.as_str()))
}

/// The sum of the basis points.
pub open spec fn basis_total(s: Seq<RevenueSplit>) -> int
    decreases s.len(),
{
    if s.len() == 0 {
        0
    } else {
        basis_total(s.drop_last()) + s.last().basis_points
    }
}

/// Splits are present, named, positive and strictly ordered.
pub open spec fn splits_ordered(s: Seq<RevenueSplit>) -> bool {
    &&& s.len() > 0
    &&& forall|i: int|
        0 <= i < s.len() ==> (#[trigger] s[i]).recipient_id@.len() > 0 && s[i].role@.len() > 0
            && s[i].basis_points > 0
    &&& adjacent_sorted(s, split_lt())
}

/// The shape check over the fields it reads.
pub open spec fn shape_parts(
    version: u16,
    title: Seq<char>,
    currency: Seq<char>,
    price: u64,
    issued_at: i64,
    expires_at: i64,
    package_cid: Seq<char>,
    policy_cid: Seq<char>,
    splits: Seq<RevenueSplit>,
) -> Result<(), CapabilityError> {
    if version != 1 || title.len() == 0 || utf8(currency).len() != 3 || price == 0 || issued_at < 0
        || expires_at <= issued_at || !is_cid_bytes(utf8(package_cid)) || !is_cid_bytes(
        utf8(policy_cid),
    ) {
        Err(CapabilityError::Invalid)
    } else if !splits_ordered(splits) || basis_total(splits) != 10000 {
        Err(CapabilityError::Splits)
    } else {
        Ok(())
    }
}

/// The fields a manifest's shape check looks at before it sums the split
/// basis points.
pub open spec fn head_ok(
    version: u16,
    title: Seq<char>,
    currency: Seq<char>,
    price: u64,
    issued_at: i64,
    expires_at: i64,
    package_cid: Seq<char>,
    policy_cid: Seq<char>,
) -> bool {
    !(version != 1 || title.len() == 0 || utf8(currency).len() != 3 || price == 0 || issued_at < 0
        || expires_at <= issued_at || !is_cid_bytes(utf8(package_cid)) || !is_cid_bytes(
        utf8(policy_cid),
    ))
}

/// Where the shape check sums a manifest's basis points, the sum fits the
/// 32 bits it is summed in.
pub open spec fn splits_fit(m: &CapabilityManifest) -> bool {
    head_ok(
        m.manifest_version,
        m.title@,
        m.currency@,
        m.price_minor,
        m.issued_at,
        m.expires_at,
        m.package_cid@,
        m.execution_policy_cid@,
    ) ==> basis_total(m.splits@) <= u32::MAX
}

/// What `validate_shape` answers.
pub open spec fn manifest_shape(m: &CapabilityManifest) -> Result<(), CapabilityError> {
    shape_parts(
        m.manifest_version,
        m.title@,
        m.currency@,
        m.price_minor,
        m.issued_at,
        m.expires_at,
        m.package_cid@,
        m.execution_policy_cid@,
        m.splits@,
    )
}

/// One split as a JSON object.
pub open spec fn split_json(s: RevenueSplit) -> Seq<u8> {
    seq![123u8] + json_text("recipient_id"@) + seq![58u8] + json_text(s.recipient_id@) + seq![44u8]
        + json_text("role"@) + seq![58u8] + json_text(s.role@) + seq![44u8] + json_text(
        "basis_points"@,
    ) + seq![58u8] + dec(s.basis_points as nat) + seq![125u8]
}

/// The splits as a JSON array.
pub open spec fn splits_json(s: Seq<RevenueSplit>) -> Seq<u8> {
    seq![91u8] + json_join(s.map_values(|x: RevenueSplit| split_json(x))) + seq![93u8]
}

/// The bytes whose digest is the capability id: the JSON tuple of the
/// manifest's fields.
pub open spec fn manifest_identity_spec(m: &CapabilityManifest) -> Seq<u8> {
    seq![91u8] + json_text("acm.capability-manifest.v1"@) + seq![44u8] + dec(
        m.manifest_version as nat,
    ) + seq![44u8] + json_byte_array(m.creator_public_key@) + seq![44u8] + json_text(
        m.kind.wire_name(),
    ) + seq![44u8] + json_text(m.title@) + seq![44u8] + json_text(m.package_cid@) + seq![44u8]
        + json_text(m.execution_policy_cid@) + seq![44u8] + json_text(m.currency@) + seq![44u8]
        + dec(m.price_minor as nat) + seq![44u8] + splits_json(m.splits@) + seq![44u8] + json_int(
        m.issued_at as int,
    ) + seq![44u8] + json_int(m.expires_at as int) + seq![93u8]
}

/// The bytes the creator signs: the identity bytes, then the id.
pub open spec fn manifest_canonical_spec(m: &CapabilityManifest) -> Seq<u8> {
    manifest_identity_spec(m) + utf8(m.capability_id@)
}

/// The id a manifest must carry.
pub open spec fn manifest_id_spec(m: &CapabilityManifest) -> Seq<char> {
    "cap_"@ + hex_chars(blake3_digest(manifest_identity_spec(m)))
}

/// What `verify` answers.
pub open spec fn manifest_verify_outcome(m: &CapabilityManifest) -> Result<(), CapabilityError> {
    match manifest_shape(m) {
        Err(e) => Err(e),
        Ok(_) => if m.capability_id@ != manifest_id_spec(m) {
            Err(CapabilityError::Invalid)
        } else {
            match signature_outcome(
                m.creator_public_key@,
                manifest_canonical_spec(m),
                m.signature@,
            ) {
                Err(e) => Err(CapabilityError::Signature(e)),
                Ok(_) => Ok(()),
            }
        },
    }
}

/// The share of split `i` before the remainder: the price times its basis
/// points (saturating at `u64::MAX`), over ten thousand.
pub open spec fn share(price: int, bp: int) -> int {
    (if price * bp > u64::MAX {
        u64::MAX as int
    } else {
        price * bp
    }) / 10000
}

/// The shares of the first `k` splits, summed.
pub open spec fn shares_before(price: int, s: Seq<RevenueSplit>, k: int) -> int
    decreases k,
{
    if k <= 0 {
        0
    } else {
        shares_before(price, s, k - 1) + share(price, s[k - 1].basis_points as int)
    }
}

/// The amount allocated to split `i`: its share, and for the last split
/// whatever of the price remains.
pub open spec fn allocation_amount(price: int, s: Seq<RevenueSplit>, i: int) -> int {
    if i == s.len() - 1 {
        price - shares_before(price, s, i)
    } else {
        share(price, s[i].basis_points as int)
    }
}

/// The summed basis points of the first `k` splits.
pub open spec fn basis_before(s: Seq<RevenueSplit>, k: int) -> int
    decreases k,
{
    if k <= 0 {
        0
    } else {
        basis_before(s, k - 1) + s[k - 1].basis_points
    }
}

proof fn lemma_shares_bounded(price: int, s: Seq<RevenueSplit>, k: int)
    requires
        0 <= k <= s.len(),
        price >= 0,
    ensures
        shares_before(price, s, k) * 10000 <= price * basis_before(s, k),
        shares_before(price, s, k) >= 0,
    decreases k,
{
    if k > 0 {
        lemma_shares_bounded(price, s, k - 1);
        let bp = s[k - 1].basis_points as int;
        let x = share(price, bp);
        assert(x * 10000 <= price * bp && x >= 0) by (nonlinear_arith)
            requires
                price >= 0,
                bp >= 0,
                x == (if price * bp > u64::MAX {
                    u64::MAX as int
                } else {
                    price * bp
                }) / 10000,
        ;
        assert(price * basis_before(s, k) == price * basis_before(s, k - 1) + price * bp)
            by (nonlinear_arith)
            requires
                basis_before(s, k) == basis_before(s, k - 1) + bp,
        ;
    }
}

proof fn lemma_basis_before_total(s: Seq<RevenueSplit>, k: int)
    requires
        0 <= k <= s.len(),
    ensures
        basis_before(s, k) == basis_total(s.take(k)),
        basis_before(s, k) >= 0,
    decreases k,
{
    if k > 0 {
        lemma_basis_before_total(s, k - 1);
        assert(s.take(k).drop_last() =~= s.take(k - 1));
    }
}

/// The price is allocated exactly: the amounts sum to the price.
pub open spec fn amounts_sum(price: int, s: Seq<RevenueSplit>, k: int) -> int
    decreases k,
{
    if k <= 0 {
        0
    } else {
        amounts_sum(price, s, k - 1) + allocation_amount(price, s, k - 1)
    }
}

/// Before the last split, the allocated amounts are the shares.
proof fn lemma_amounts_are_shares(price: int, s: Seq<RevenueSplit>, k: int)
    requires
        0 <= k < s.len(),
    ensures
        amounts_sum(price, s, k) == shares_before(price, s, k),
    decreases k,
{
    if k > 0 {
        lemma_amounts_are_shares(price, s, k - 1);
    }
}

/// The allocations of a manifest sum to its price.
pub proof fn law_allocations_conserve_price(price: int, s: Seq<RevenueSplit>)
    requires
        s.len() > 0,
    ensures
        amounts_sum(price, s, s.len() as int) == price,
{
    lemma_amounts_are_shares(price, s, s.len() - 1);
}

/// Each split but the last is allocated its basis-point share of the price:
/// the price times its basis points, saturating at `u64::MAX`, over ten
/// thousand, rounded down.
pub proof fn law_allocation_is_basis_point_share(price: int, s: Seq<RevenueSplit>, i: int)
    requires
        0 <= i < s.len() - 1,
    ensures
        allocation_amount(price, s, i) == (if price * s[i].basis_points > u64::MAX {
            u64::MAX as int
        } else {
            price * s[i].basis_points
        }) / 10000,
{
}

/// The amounts of a list of allocations, summed.
pub open spec fn allocated_total(v: Seq<(String, u64)>) -> int
    decreases v.len(),
{
    if v.len() == 0 {
        0
    } else {
        allocated_total(v.drop_last()) + v.last().1
    }
}

/// Appends one split as a JSON object.
fn push_split_json(out: &mut Vec<u8>, s: &RevenueSplit)
    ensures
        final(out)@ == old(out)@ + split_json(*s),
{
    out.push(123);
    push_json_key(out, "recipient_id");
    push_json_str(out, s.recipient_id.as_str());
    out.push(44);
    push_json_key(out, "role");
    push_json_str(out, s.role.as_str());
    out.push(44);
    push_json_key(out, "basis_points");
    push_dec(out, s.basis_points as u64);
    out.push(125);
    assert(out@ =~= old(out)@ + split_json(*s));
}

/// Appends the splits as a JSON array.
fn push_splits_json(out: &mut Vec<u8>, v: &Vec<RevenueSplit>)
    ensures
        final(out)@ == old(out)@ + splits_json(v@),
{
    let ghost parts = v@.map_values(|x: RevenueSplit| split_json(x));
    out.push(91);
    let mut i: usize = 0;
    while i < v.len()
        invariant
            0 <= i <= v@.len(),
            parts == v@.map_values(|x: RevenueSplit| split_json(x)),
            out@ == old(out)@ + seq![91u8] + json_join(parts.take(i as int)),
        decreases v@.len() - i,
    {
        if i > 0 {
            out.push(44);
        }
        push_split_json(out, &v[i]);
        proof {
            lemma_join_push(parts.take(i as int), parts[i as int]);
            assert(parts.take(i as int).push(parts[i as int]) =~= parts.take(i + 1));
        }
        i = i + 1;
    }
    out.push(93);
    assert(parts.take(v@.len() as int) =~= parts);
    assert(out@ =~= old(out)@ + splits_json(v@));
}

/// Where `x` goes: before the first split it sorts before.
fn split_position(sorted: &Vec<RevenueSplit>, x: &RevenueSplit) -> (j: usize)
    ensures
        0 <= j <= sorted@.len(),
        forall|q: int| 0 <= q < j ==> !(split_lt())(*x, #[trigger] sorted@[q]),
        j < sorted@.len() ==> (split_lt())(*x, sorted@[j as int]),
{
    let mut j: usize = 0;
    while j < sorted.len()
        invariant
            0 <= j <= sorted@.len(),
            forall|q: int| 0 <= q < j ==> !(split_lt())(*x, #[trigger] sorted@[q]),
        decreases sorted@.len() - j,
    {
        if split_less(x, &sorted[j]) {
            return j;
        }
        j = j + 1;
    }
    j
}

/// Sorts splits by recipient, then role, keeping equal ones in order.
fn sort_splits(splits: Vec<RevenueSplit>) -> (res: Vec<RevenueSplit>)
    ensures
        res@ == sort_by(splits@, split_lt()),
{
    let ghost original = splits@;
    let total_len = splits.len();
    let mut rest = splits;
    let mut res: Vec<RevenueSplit> = Vec::new();
    let mut k: usize = 0;
    while rest.len() > 0
        invariant
            k <= original.len(),
            original.len() == total_len,
            rest@.len() + k == original.len(),
            rest@ == original.skip(k as int),
            res@ == sort_by(original.take(k as int), split_lt()),
        decreases rest@.len(),
    {
        let x = rest.remove(0);
        let j = split_position(&res, &x);
        let ghost before = res@;
        proof {
            lemma_insert_by_at(before, x, split_lt(), j as int);
            assert(original.take(k + 1).drop_last() =~= original.take(k as int));
            assert(original.take(k + 1).last() == x);
        }
        res.insert(j, x);
        assert(res@ =~= before.take(j as int).push(x) + before.skip(j as int));
        k = k + 1;
        assert(rest@ =~= original.skip(k as int));
    }
    assert(original.take(k as int) =~= original);
    res
}

impl CapabilityManifest {
    /// The manifest's shape: fields, cids, time window and splits.
    pub fn validate_shape(&self) -> (res: Result<(), CapabilityError>)
        requires
            splits_fit(self),
        ensures
            res == manifest_shape(self),
    {
        if self.manifest_version != 1 || self.title.as_str().is_empty()
            || self.currency.as_str().as_bytes().len() != 3 || self.price_minor == 0 || self.issued_at < 0
            || self.expires_at <= self.issued_at || !is_cid(self.package_cid.as_str()) || !is_cid(
            self.execution_policy_cid.as_str(),
        ) {
            return Err(CapabilityError::Invalid);
        }
        let n = self.splits.len();
        let mut ordered = n > 0;
        let mut total: u32 = 0;
        let mut i: usize = 0;
        while i < n
            invariant
                n == self.splits@.len(),
                0 <= i <= n,
                basis_total(self.splits@) <= u32::MAX,
                total as int == basis_before(self.splits@, i as int),
                ordered == (n > 0 && (forall|q: int|
                    0 <= q < i ==> (#[trigger] self.splits@[q]).recipient_id@.len() > 0
                        && self.splits@[q].role@.len() > 0 && self.splits@[q].basis_points > 0) && (
                forall|q: int|
                    0 <= q < i && q < n - 1 ==> (split_lt())(
                        #[trigger] self.splits@[q],
                        self.splits@[q + 1],
                    ))),
            decreases n - i,
        {
            let s = &self.splits[i];
            proof {
                lemma_basis_before_total(self.splits@, n as int);
                assert(self.splits@.take(n as int) =~= self.splits@);
                lemma_basis_monotone(self.splits@, i as int + 1, n as int);
            }
            let named = !s.recipient_id.as_str().is_empty() && !s.role.as_str().is_empty()
                && s.basis_points > 0;
            let next_ok = if i + 1 < n {
                split_less(s, &self.splits[i + 1])
            } else {
                true
            };
            ordered = ordered && named && next_ok;
            total = total + s.basis_points as u32;
            i = i + 1;
        }
        proof {
            lemma_basis_before_total(self.splits@, n as int);
            assert(self.splits@.take(n as int) =~= self.splits@);
            assert(total as int == basis_total(self.splits@));
            assert(ordered == splits_ordered(self.splits@));
        }
        if !ordered || total != 10000 {
            return Err(CapabilityError::Splits);
        }
        Ok(())
    }

    /// The JSON tuple whose digest is the capability id.
    pub fn identity_bytes(&self) -> (res: Vec<u8>)
        ensures
            res@ == manifest_identity_spec(self),
    {
        let mut out: Vec<u8> = Vec::new();
        out.push(91);
        push_json_str(&mut out, "acm.capability-manifest.v1");
        out.push(44);
        push_dec(&mut out, self.manifest_version as u64);
        out.push(44);
        push_json_byte_array(&mut out, &self.creator_public_key);
        out.push(44);
        push_json_str(&mut out, self.kind.name());
        out.push(44);
        push_json_str(&mut out, self.title.as_str());
        out.push(44);
        push_json_str(&mut out, self.package_cid.as_str());
        out.push(44);
        push_json_str(&mut out, self.execution_policy_cid.as_str());
        out.push(44);
        push_json_str(&mut out, self.currency.as_str());
        out.push(44);
        push_dec(&mut out, self.price_minor);
        out.push(44);
        push_splits_json(&mut out, &self.splits);
        out.push(44);
        push_json_i64(&mut out, self.issued_at);
        out.push(44);
        push_json_i64(&mut out, self.expires_at);
        out.push(93);
        assert(out@ =~= manifest_identity_spec(self));
        out
    }

    /// The bytes the creator signs.
    pub fn canonical_bytes(&self) -> (res: Vec<u8>)
        ensures
            res@ == manifest_canonical_spec(self),
    {
        let mut out = self.identity_bytes();
        push_bytes(&mut out, self.capability_id.as_str().as_bytes());
        out
    }

    /// Issues a manifest: splits sorted by recipient then role, shape checked,
    /// id derived from the identity bytes, signed by the creator.
    pub fn issue(
        kind: OfferingKind,
        title: String,
        package_cid: String,
        execution_policy_cid: String,
        currency: String,
        price_minor: u64,
        splits: Vec<RevenueSplit>,
        issued_at: i64,
        expires_at: i64,
        creator: &Identity,
    ) -> (res: Result<Self, CapabilityError>)
        requires
            head_ok(
                1,
                title@,
                currency@,
                price_minor,
                issued_at,
                expires_at,
                package_cid@,
                execution_policy_cid@,
            ) ==> basis_total(splits@) <= u32::MAX,
        ensures
            match shape_parts(
                1,
                title@,
                currency@,
                price_minor,
                issued_at,
                expires_at,
                package_cid@,
                execution_policy_cid@,
                sort_by(splits@, split_lt()),
            ) {
                Err(e) => res == Err::<CapabilityManifest, CapabilityError>(e),
                Ok(_) => res matches Ok(m) && {
                    &&& m.manifest_version == 1
                    &&& m.kind == kind
                    &&& m.title == title
                    &&& m.package_cid == package_cid
                    &&& m.execution_policy_cid == execution_policy_cid
                    &&& m.currency == currency
                    &&& m.price_minor == price_minor
                    &&& m.issued_at == issued_at
                    &&& m.expires_at == expires_at
                    &&& m.splits@ == sort_by(splits@, split_lt())
                    &&& m.creator_public_key@ == ed25519_public_key_of(creator.seed())
                    &&& ed25519_key_decodes(m.creator_public_key@)
                    &&& m.capability_id@ == manifest_id_spec(&m)
                    &&& m.signature@ == ed25519_signature_of(
                        creator.seed(),
                        manifest_canonical_spec(&m),
                    )
                    &&& m.signature@.len() == 64
                    &&& ed25519_verifies(
                        m.creator_public_key@,
                        manifest_canonical_spec(&m),
                        m.signature@,
                    )
                },
            },
    {
        let ghost input = splits@;
        let splits = sort_splits(splits);
        proof {
            lemma_sorted_total(input);
        }
        let mut manifest = CapabilityManifest {
            manifest_version: 1,
            capability_id: String::new(),
            creator_public_key: creator.public_key(),
            kind,
            title,
            package_cid,
            execution_policy_cid,
            currency,
            price_minor,
            splits,
            issued_at,
            expires_at,
            signature: Vec::new(),
        };
        match manifest.validate_shape() {
            Err(e) => {
                return Err(e);
            },
            Ok(_) => {},
        }
        let identity = manifest.identity_bytes();
        manifest.capability_id = prefixed_digest("cap_", &identity);
        let canonical = manifest.canonical_bytes();
        let signature = creator.sign(&canonical);
        let mut sig: Vec<u8> = Vec::new();
        push_bytes(&mut sig, &signature);
        manifest.signature = sig;
        Ok(manifest)
    }
}

/// Prepending adds the first element's basis points.
proof fn lemma_basis_prepend(x: RevenueSplit, s: Seq<RevenueSplit>)
    ensures
        basis_total(seq![x] + s) == x.basis_points + basis_total(s),
    decreases s.len(),
{
    let t = seq![x] + s;
    if s.len() > 0 {
        assert(t.drop_last() =~= seq![x] + s.drop_last());
        assert(t.last() == s.last());
        lemma_basis_prepend(x, s.drop_last());
        assert(basis_total(t) == basis_total(t.drop_last()) + t.last().basis_points);
        assert(basis_total(s) == basis_total(s.drop_last()) + s.last().basis_points);
    } else {
        assert(t.drop_last() =~= Seq::<RevenueSplit>::empty());
        assert(t.last() == x);
        assert(basis_total(t) == basis_total(t.drop_last()) + t.last().basis_points);
    }
}

/// Inserting adds the inserted element's basis points.
proof fn lemma_basis_insert(s: Seq<RevenueSplit>, x: RevenueSplit)
    ensures
        basis_total(insert_by(s, x, split_lt())) == basis_total(s) + x.basis_points,
    decreases s.len(),
{
    if s.len() == 0 {
        lemma_basis_prepend(x, s);
    } else if (split_lt())(x, s[0]) {
        lemma_basis_prepend(x, s);
    } else {
        lemma_basis_insert(s.drop_first(), x);
        lemma_basis_prepend(s[0], insert_by(s.drop_first(), x, split_lt()));
        lemma_basis_prepend(s[0], s.drop_first());
        assert(seq![s[0]] + s.drop_first() =~= s);
    }
}

/// Sorting keeps the total.
pub proof fn lemma_sorted_total(s: Seq<RevenueSplit>)
    ensures
        basis_total(sort_by(s, split_lt())) == basis_total(s),
    decreases s.len(),
{
    if s.len() > 0 {
        lemma_sorted_total(s.drop_last());
        lemma_basis_insert(sort_by(s.drop_last(), split_lt()), s.last());
    }
}

impl CapabilityManifest {
    /// Checks shape, id and the creator's signature.
    pub fn verify(&self) -> (res: Result<(), CapabilityError>)
        requires
            splits_fit(self),
        ensures
            res == manifest_verify_outcome(self),
    {
        match self.validate_shape() {
            Err(e) => {
                return Err(e);
            },
            Ok(_) => {},
        }
        let identity = self.identity_bytes();
        let expected = prefixed_digest("cap_", &identity);
        if !str_equal(self.capability_id.as_str(), expected.as_str()) {
            return Err(CapabilityError::Invalid);
        }
        let canonical = self.canonical_bytes();
        match verify_signature(&self.creator_public_key, &canonical, self.signature.as_slice()) {
            Err(e) => Err(CapabilityError::Signature(e)),
            Ok(_) => Ok(()),
        }
    }

    /// The amount each recipient receives: each split its share of the
    /// price, the last split the remainder, so that the amounts sum to the
    /// price.
    pub fn allocations(&self) -> (res: Result<Vec<(String, u64)>, CapabilityError>)
        requires
            splits_fit(self),
        ensures
            match manifest_verify_outcome(self) {
                Err(e) => res == Err::<Vec<(String, u64)>, CapabilityError>(e),
                Ok(_) => res matches Ok(v) && v@.len() == self.splits@.len() && allocated_total(v@)
                    == self.price_minor && forall|i: int|
                    0 <= i < v@.len() ==> (#[trigger] v@[i]).0@ == self.splits@[i].recipient_id@
                        && v@[i].1 == allocation_amount(
                        self.price_minor as int,
                        self.splits@,
                        i,
                    ) && (i < v@.len() - 1 ==> v@[i].1 == (if self.price_minor
                        * self.splits@[i].basis_points > u64::MAX {
                        u64::MAX as int
                    } else {
                        self.price_minor * self.splits@[i].basis_points
                    }) / 10000),
            },
    {
        match self.verify() {
            Err(e) => {
                return Err(e);
            },
            Ok(_) => {},
        }
        let n = self.splits.len();
        let price = self.price_minor;
        let mut allocated: u64 = 0;
        let mut values: Vec<(String, u64)> = Vec::new();
        let mut i: usize = 0;
        proof {
            lemma_basis_before_total(self.splits@, n as int);
            assert(self.splits@.take(n as int) =~= self.splits@);
        }
        while i < n
            invariant
                n == self.splits@.len(),
                n > 0,
                price == self.price_minor,
                basis_before(self.splits@, n as int) == 10000,
                forall|q: int| 0 <= q < n ==> (#[trigger] self.splits@[q]).basis_points > 0,
                0 <= i <= n,
                i < n ==> allocated as int == shares_before(price as int, self.splits@, i as int),
                values@.len() == i,
                forall|q: int|
                    0 <= q < i ==> (#[trigger] values@[q]).0@ == self.splits@[q].recipient_id@
                        && values@[q].1 == allocation_amount(price as int, self.splits@, q),
                allocated_total(values@) == amounts_sum(price as int, self.splits@, i as int),
            decreases n - i,
        {
            let split = &self.splits[i];
            proof {
                lemma_shares_bounded(price as int, self.splits@, i as int);
                lemma_basis_monotone(self.splits@, i as int, n as int);
                lemma_basis_monotone(self.splits@, i as int + 1, n as int);
                assert(allocated as int * 10000 <= price as int * 10000) by (nonlinear_arith)
                    requires
                        allocated as int * 10000 <= price as int * basis_before(
                            self.splits@,
                            i as int,
                        ),
                        basis_before(self.splits@, i as int) <= 10000,
                        price >= 0,
                ;
            }
            let amount: u64 = if i + 1 == n {
                price - allocated
            } else {
                let product = match price.checked_mul(split.basis_points as u64) {
                    Some(p) => p,
                    None => u64::MAX,
                };
                product / 10000
            };
            proof {
                if i + 1 < n {
                    lemma_shares_bounded(price as int, self.splits@, i as int + 1);
                    assert(basis_before(self.splits@, i as int + 1) <= 10000);
                    let next = shares_before(price as int, self.splits@, i as int + 1);
                    assert(next <= price) by (nonlinear_arith)
                        requires
                            next * 10000 <= price as int * basis_before(
                                self.splits@,
                                i as int + 1,
                            ),
                            basis_before(self.splits@, i as int + 1) <= 10000,
                            price >= 0,
                    ;
                }
            }
            allocated = allocated + amount;
            let ghost before = values@;
            values.push((split.recipient_id.clone(), amount));
            proof {
                assert(values@.drop_last() =~= before);
            }
            i = i + 1;
        }
        proof {
            law_allocations_conserve_price(price as int, self.splits@);
        }
        Ok(values)
    }
}

/// A manifest that `issue` returns verifies: its shape holds, its id is
/// the digest of its identity bytes, and its creator's signature verifies.
pub proof fn law_issued_manifest_verifies(m: &CapabilityManifest)
    requires
        manifest_shape(m) is Ok,
        m.capability_id@ == manifest_id_spec(m),
        m.signature@.len() == 64,
        ed25519_key_decodes(m.creator_public_key@),
        ed25519_verifies(m.creator_public_key@, manifest_canonical_spec(m), m.signature@),
    ensures
        manifest_verify_outcome(m) is Ok,
{
}

proof fn lemma_basis_monotone(s: Seq<RevenueSplit>, a: int, b: int)
    requires
        0 <= a <= b <= s.len(),
    ensures
        basis_before(s, a) <= basis_before(s, b),
    decreases b - a,
{
    if a < b {
        lemma_basis_monotone(s, a, b - 1);
    }
}

} // verus!
