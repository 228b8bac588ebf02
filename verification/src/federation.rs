//! Federation: a signed, content-addressed export of a community's items,
//! and the importing community's signed receipt of what it took in.
use vstd::prelude::*;
use crate::text::{utf8, is_cid, is_cid_bytes, has_prefix, starts_with, push_bytes, str_equal,
    str_lt, str_less, hex, hex_chars};
use crate::json::{json_text, json_byte_array, json_int, json_opt_text, dec, push_json_str,
    push_json_byte_array, push_json_i64, push_json_opt_str, push_dec, push_json_key, json_join,
    lemma_join_push};
use crate::order::{sort_by, adjacent_sorted, lemma_insert_by_at};
use crate::hashing::{blake3_digest, blake3_hash, merkle_fold, merkle_root_of, node_views};
use crate::identity::{Identity, IdentityError, signature_outcome, verify_signature,
    prefixed_digest};
use crate::signing::{ed25519_public_key_of, ed25519_signature_of, ed25519_verifies,
    ed25519_key_decodes};
use crate::legacy::opt_text;

verus! {

/// One exported item.
#[derive(Debug)]
pub struct ExportItem {
    pub category: String,
    pub item_id: String,
    pub content_cid: String,
}

/// A signed export of a community's items.
#[derive(Debug)]
pub struct FederationBundle {
    pub bundle_version: u16,
    pub bundle_id: String,
    pub source_community_id: String,
    pub target_community_id: Option<String>,
    pub owner_public_key: [u8; 32],
    pub items: Vec<ExportItem>,
    pub created_at: i64,
    pub signature: Vec<u8>,
}

/// The target community's signed receipt of an imported bundle.
#[derive(Debug)]
pub struct MigrationReceipt {
    pub receipt_version: u16,
    pub bundle_id: String,
    pub target_community_id: String,
    pub imported_root: String,
    pub operator_public_key: [u8; 32],
    pub imported_at: i64,
    pub signature: Vec<u8>,
}

/// Why a bundle or receipt was refused.
#[derive(Debug)]
pub enum FederationError {
    Invalid,
    ItemOrder,
    Signature(IdentityError),
}

/// Items are ordered by category, then id.
pub open spec fn item_lt() -> spec_fn(ExportItem, ExportItem) -> bool {
    |a: ExportItem, b: ExportItem|
        str_lt(a.category@, b.category@) || (a.category@ == b.category@ && str_lt(
            a.item_id@,
            b.item_id@,
        ))
}

/// Whether item `a` sorts before item `b`.
fn item_less(a: &ExportItem, b: &ExportItem) -> (res: bool)
    ensures
        res == (item_lt())(*a, *b),
{
    str_less(a.category.as_str(), b.category.as_str()) || (str_equal(
        a.category.as_str(),
        b.category.as_str(),
    ) && str_less(a.item_id.as_str(), b.item_id.as_str()))
}

/// Where `x` goes: before the first item it sorts before.
fn item_position(sorted: &Vec<ExportItem>, x: &ExportItem) -> (j: usize)
    ensures
        0 <= j <= sorted@.len(),
        forall|q: int| 0 <= q < j ==> !(item_lt())(*x, #[trigger] sorted@[q]),
        j < sorted@.len() ==> (item_lt())(*x, sorted@[j as int]),
{
    let mut j: usize = 0;
    while j < sorted.len()
        invariant
            0 <= j <= sorted@.len(),
            forall|q: int| 0 <= q < j ==> !(item_lt())(*x, #[trigger] sorted@[q]),
        decreases sorted@.len() - j,
    {
        if item_less(x, &sorted[j]) {
            return j;
        }
        j = j + 1;
    }
    j
}

/// Sorts items by category, then id, keeping equal ones in order.
fn sort_items(items: Vec<ExportItem>) -> (res: Vec<ExportItem>)
    ensures
        res@ == sort_by(items@, item_lt()),
{
    let ghost original = items@;
    let total_len = items.len();
    let mut rest = items;
    let mut res: Vec<ExportItem> = Vec::new();
    let mut k: usize = 0;
    while rest.len() > 0
        invariant
            k <= original.len(),
            original.len() == total_len,
            rest@.len() + k == original.len(),
            rest@ == original.skip(k as int),
            res@ == sort_by(original.take(k as int), item_lt()),
        decreases rest@.len(),
    {
        let x = rest.remove(0);
        let j = item_position(&res, &x);
        let ghost before = res@;
        proof {
            lemma_insert_by_at(before, x, item_lt(), j as int);
            assert(original.take(k + 1).drop_last() =~= original.take(k as int));
            assert(original.take(k + 1).last() == x);
        }
        res.insert(j, x);
        assert(res@ =~= before.take(j as int).push(x) + before.skip(j as int));
        k = k + 1;
        assert(rest@ =~= original.skip(k as int));
    }
    assert(original.take(k as int) =~= original);
    res
}

/// Each item is named and carries a content identifier.
pub open spec fn items_named(s: Seq<ExportItem>) -> bool {
    forall|i: int|
        0 <= i < s.len() ==> (#[trigger] s[i]).category@.len() > 0 && s[i].item_id@.len() > 0
            && is_cid_bytes(utf8(s[i].content_cid@))
}

/// The shape check over the fields it reads.
pub open spec fn bundle_shape_parts(
    version: u16,
    source: Seq<char>,
    target: Option<Seq<char>>,
    items: Seq<ExportItem>,
    created_at: i64,
) -> Result<(), FederationError> {
    if version != 1 || source.len() == 0 || (target matches Some(t) && t.len() == 0) || items.len()
        == 0 || created_at < 0 || !items_named(items) {
        Err(FederationError::Invalid)
    } else if !adjacent_sorted(items, item_lt()) {
        Err(FederationError::ItemOrder)
    } else {
        Ok(())
    }
}

/// What `FederationBundle::validate_shape` answers.
pub open spec fn bundle_shape(b: &FederationBundle) -> Result<(), FederationError> {
    bundle_shape_parts(
        b.bundle_version,
        b.source_community_id@,
        opt_text(b.target_community_id),
        b.items@,
        b.created_at,
    )
}

/// One item as a JSON object.
pub open spec fn item_json(x: ExportItem) -> Seq<u8> {
    seq![123u8] + json_text("category"@) + seq![58u8] + json_text(x.category@) + seq![44u8]
        + json_text("item_id"@) + seq![58u8] + json_text(x.item_id@) + seq![44u8] + json_text(
        "content_cid"@,
    ) + seq![58u8] + json_text(x.content_cid@) + seq![125u8]
}

/// The items as a JSON array.
pub open spec fn items_json(s: Seq<ExportItem>) -> Seq<u8> {
    seq![91u8] + json_join(s.map_values(|x: ExportItem| item_json(x))) + seq![93u8]
}

/// The JSON tuple whose digest is the bundle id.
pub open spec fn bundle_identity_spec(b: &FederationBundle) -> Seq<u8> {
    seq![91u8] + json_text("acm.federation-bundle.v1"@) + seq![44u8] + dec(
        b.bundle_version as nat,
    ) + seq![44u8] + json_text(b.source_community_id@) + seq![44u8] + json_opt_text(
        opt_text(b.target_community_id),
    ) + seq![44u8] + json_byte_array(b.owner_public_key@) + seq![44u8] + items_json(b.items@)
        + seq![44u8] + json_int(b.created_at as int) + seq![93u8]
}

/// The bytes the owner signs.
pub open spec fn bundle_canonical_spec(b: &FederationBundle) -> Seq<u8> {
    bundle_identity_spec(b) + utf8(b.bundle_id@)
}

/// The id a bundle must carry.
pub open spec fn bundle_id_spec(b: &FederationBundle) -> Seq<char> {
    "exp_"@ + hex_chars(blake3_digest(bundle_identity_spec(b)))
}

/// What `FederationBundle::verify` answers.
pub open spec fn bundle_verify_outcome(b: &FederationBundle) -> Result<(), FederationError> {
    match bundle_shape(b) {
        Err(e) => Err(e),
        Ok(_) => if b.bundle_id@ != bundle_id_spec(b) {
            Err(FederationError::Invalid)
        } else {
            match signature_outcome(b.owner_public_key@, bundle_canonical_spec(b), b.signature@) {
                Err(e) => Err(FederationError::Signature(e)),
                Ok(_) => Ok(()),
            }
        },
    }
}

/// The Merkle root over the items: each leaf the digest of the item's JSON.
pub open spec fn bundle_root_spec(items: Seq<ExportItem>) -> Seq<char> {
    hex_chars(merkle_fold(items.map_values(|x: ExportItem| blake3_digest(item_json(x)))))
}

/// Appends one item as a JSON object.
fn push_item_json(out: &mut Vec<u8>, x: &ExportItem)
    ensures
        final(out)@ == old(out)@ + item_json(*x),
{
    out.push(123);
    push_json_key(out, "category");
    push_json_str(out, x.category.as_str());
    out.push(44);
    push_json_key(out, "item_id");
    push_json_str(out, x.item_id.as_str());
    out.push(44);
    push_json_key(out, "content_cid");
    push_json_str(out, x.content_cid.as_str());
    out.push(125);
    assert(out@ =~= old(out)@ + item_json(*x));
}

/// Appends the items as a JSON array.
fn push_items_json(out: &mut Vec<u8>, v: &Vec<ExportItem>)
    ensures
        final(out)@ == old(out)@ + items_json(v@),
{
    let ghost parts = v@.map_values(|x: ExportItem| item_json(x));
    out.push(91);
    let mut i: usize = 0;
    while i < v.len()
        invariant
            0 <= i <= v@.len(),
            parts == v@.map_values(|x: ExportItem| item_json(x)),
            out@ == old(out)@ + seq![91u8] + json_join(parts.take(i as int)),
        decreases v@.len() - i,
    {
        if i > 0 {
            out.push(44);
        }
        push_item_json(out, &v[i]);
        proof {
            lemma_join_push(parts.take(i as int), parts[i as int]);
            assert(parts.take(i as int).push(parts[i as int]) =~= parts.take(i + 1));
        }
        i = i + 1;
    }
    out.push(93);
    assert(parts.take(v@.len() as int) =~= parts);
    assert(out@ =~= old(out)@ + items_json(v@));
}

/// Whether items are present, named and identified.
fn items_are_named(v: &Vec<ExportItem>) -> (res: bool)
    ensures
        res == items_named(v@),
{
    let mut i: usize = 0;
    while i < v.len()
        invariant
            0 <= i <= v@.len(),
            forall|q: int|
                0 <= q < i ==> (#[trigger] v@[q]).category@.len() > 0 && v@[q].item_id@.len() > 0
                    && is_cid_bytes(utf8(v@[q].content_cid@)),
        decreases v@.len() - i,
    {
        let x = &v[i];
        if x.category.as_str().is_empty() || x.item_id.as_str().is_empty() || !is_cid(
            x.content_cid.as_str(),
        ) {
            return false;
        }
        i = i + 1;
    }
    true
}

/// Whether neighbouring items strictly increase.
fn items_in_order(v: &Vec<ExportItem>) -> (res: bool)
    ensures
        res == adjacent_sorted(v@, item_lt()),
{
    if v.len() < 2 {
        return true;
    }
    let mut i: usize = 0;
    while i < v.len() - 1
        invariant
            v@.len() >= 2,
            0 <= i <= v@.len() - 1,
            forall|k: int| 0 <= k < i ==> (item_lt())(#[trigger] v@[k], v@[k + 1]),
        decreases v@.len() - i,
    {
        if !item_less(&v[i], &v[i + 1]) {
            return false;
        }
        i = i + 1;
    }
    true
}

impl FederationBundle {
    /// The bundle's shape.
    pub fn validate_shape(&self) -> (res: Result<(), FederationError>)
        ensures
            res == bundle_shape(self),
    {
        let target_empty = match &self.target_community_id {
            Some(t) => t.as_str().is_empty(),
            None => false,
        };
        if self.bundle_version != 1 || self.source_community_id.as_str().is_empty() || target_empty
            || self.items.len() == 0 || self.created_at < 0 || !items_are_named(&self.items) {
            return Err(FederationError::Invalid);
        }
        if !items_in_order(&self.items) {
            return Err(FederationError::ItemOrder);
        }
        Ok(())
    }

    /// The JSON tuple whose digest is the bundle id.
    pub fn identity_bytes(&self) -> (res: Vec<u8>)
        ensures
            res@ == bundle_identity_spec(self),
    {
        let mut out: Vec<u8> = Vec::new();
        out.push(91);
        push_json_str(&mut out, "acm.federation-bundle.v1");
        out.push(44);
        push_dec(&mut out, self.bundle_version as u64);
        out.push(44);
        push_json_str(&mut out, self.source_community_id.as_str());
        out.push(44);
        push_json_opt_str(&mut out, &self.target_community_id);
        out.push(44);
        push_json_byte_array(&mut out, &self.owner_public_key);
        out.push(44);
        push_items_json(&mut out, &self.items);
        out.push(44);
        push_json_i64(&mut out, self.created_at);
        out.push(93);
        assert(out@ =~= bundle_identity_spec(self));
        out
    }

    /// The bytes the owner signs.
    pub fn canonical_bytes(&self) -> (res: Vec<u8>)
        ensures
            res@ == bundle_canonical_spec(self),
    {
        let mut out = self.identity_bytes();
        push_bytes(&mut out, self.bundle_id.as_str().as_bytes());
        out
    }

    /// Exports items: sorted by category then id, shape checked, id derived
    /// from the identity bytes, signed by the owner.
    pub fn export(
        source_community_id: String,
        target_community_id: Option<String>,
        items: Vec<ExportItem>,
        created_at: i64,
        owner: &Identity,
    ) -> (res: Result<Self, FederationError>)
        ensures
            match bundle_shape_parts(
                1,
                source_community_id@,
                opt_text(target_community_id),
                sort_by(items@, item_lt()),
                created_at,
            ) {
                Err(e) => res == Err::<FederationBundle, FederationError>(e),
                Ok(_) => res matches Ok(b) && {
                    &&& b.bundle_version == 1
                    &&& b.source_community_id == source_community_id
                    &&& b.target_community_id == target_community_id
                    &&& b.items@ == sort_by(items@, item_lt())
                    &&& b.created_at == created_at
                    &&& b.owner_public_key@ == ed25519_public_key_of(owner.seed())
                    &&& ed25519_key_decodes(b.owner_public_key@)
                    &&& b.bundle_id@ == bundle_id_spec(&b)
                    &&& b.signature@ == ed25519_signature_of(owner.seed(), bundle_canonical_spec(&b))
                    &&& b.signature@.len() == 64
                    &&& ed25519_verifies(b.owner_public_key@, bundle_canonical_spec(&b), b.signature@)
                },
            },
    {
        let items = sort_items(items);
        let mut bundle = FederationBundle {
            bundle_version: 1,
            bundle_id: String::new(),
            source_community_id,
            target_community_id,
            owner_public_key: owner.public_key(),
            items,
            created_at,
            signature: Vec::new(),
        };
        match bundle.validate_shape() {
            Err(e) => {
                return Err(e);
            },
            Ok(_) => {},
        }
        let identity = bundle.identity_bytes();
        bundle.bundle_id = prefixed_digest("exp_", &identity);
        let canonical = bundle.canonical_bytes();
        let signature = owner.sign(&canonical);
        let mut sig: Vec<u8> = Vec::new();
        push_bytes(&mut sig, &signature);
        bundle.signature = sig;
        Ok(bundle)
    }

    /// Checks shape, id and the owner's signature.
    pub fn verify(&self) -> (res: Result<(), FederationError>)
        ensures
            res == bundle_verify_outcome(self),
    {
        match self.validate_shape() {
            Err(e) => {
                return Err(e);
            },
            Ok(_) => {},
        }
        let identity = self.identity_bytes();
        let expected = prefixed_digest("exp_", &identity);
        if !str_equal(self.bundle_id.as_str(), expected.as_str()) {
            return Err(FederationError::Invalid);
        }
        let canonical = self.canonical_bytes();
        match verify_signature(&self.owner_public_key, &canonical, self.signature.as_slice()) {
            Err(e) => Err(FederationError::Signature(e)),
            Ok(_) => Ok(()),
        }
    }

    /// The Merkle root over the items, in hex.
    pub fn merkle_root(&self) -> (res: String)
        requires
            self.items@.len() > 0,
        ensures
            res@ == bundle_root_spec(self.items@),
            is_cid_bytes(utf8(res@)),
    {
        let mut leaves: Vec<[u8; 32]> = Vec::new();
        let mut i: usize = 0;
        while i < self.items.len()
            invariant
                0 <= i <= self.items@.len(),
                node_views(leaves@) == self.items@.take(i as int).map_values(
                    |x: ExportItem| blake3_digest(item_json(x)),
                ),
            decreases self.items@.len() - i,
        {
            let mut bytes: Vec<u8> = Vec::new();
            push_item_json(&mut bytes, &self.items[i]);
            assert(bytes@ =~= item_json(self.items@[i as int]));
            let ghost before = leaves@;
            let leaf = blake3_hash(&bytes);
            leaves.push(leaf);
            proof {
                let f = |x: ExportItem| blake3_digest(item_json(x));
                assert(node_views(leaves@) =~= node_views(before).push(leaf@));
                assert(self.items@.take(i + 1) =~= self.items@.take(i as int).push(
                    self.items@[i as int],
                ));
                assert(self.items@.take(i + 1).map_values(f) =~= self.items@.take(
                    i as int,
                ).map_values(f).push(f(self.items@[i as int])));
            }
            i = i + 1;
        }
        assert(self.items@.take(self.items@.len() as int) =~= self.items@);
        let root = merkle_root_of(leaves);
        proof {
            crate::text::lemma_hex_is_cid(root@);
        }
        hex(&root)
    }
}

/// What `MigrationReceipt::validate_shape` answers.
pub open spec fn migration_shape(r: &MigrationReceipt) -> bool {
    r.receipt_version == 1 && has_prefix(utf8(r.bundle_id@), utf8("exp_"@))
        && r.target_community_id@.len() > 0 && is_cid_bytes(utf8(r.imported_root@))
        && r.imported_at >= 0
}

/// The bytes the importing operator signs.
pub open spec fn migration_canonical_spec(r: &MigrationReceipt) -> Seq<u8> {
    seq![91u8] + json_text("acm.migration-receipt.v1"@) + seq![44u8] + dec(
        r.receipt_version as nat,
    ) + seq![44u8] + json_text(r.bundle_id@) + seq![44u8] + json_text(r.target_community_id@)
        + seq![44u8] + json_text(r.imported_root@) + seq![44u8] + json_byte_array(
        r.operator_public_key@,
    ) + seq![44u8] + json_int(r.imported_at as int) + seq![93u8]
}

/// What `MigrationReceipt::verify` answers.
pub open spec fn migration_verify_outcome(r: &MigrationReceipt, b: &FederationBundle) -> Result<
    (),
    FederationError,
> {
    if !migration_shape(r) {
        Err(FederationError::Invalid)
    } else {
        match bundle_verify_outcome(b) {
            Err(e) => Err(e),
            Ok(_) => if r.bundle_id@ != b.bundle_id@ || r.imported_root@ != bundle_root_spec(
                b.items@,
            ) {
                Err(FederationError::Invalid)
            } else {
                match signature_outcome(
                    r.operator_public_key@,
                    migration_canonical_spec(r),
                    r.signature@,
                ) {
                    Err(e) => Err(FederationError::Signature(e)),
                    Ok(_) => Ok(()),
                }
            },
        }
    }
}

impl MigrationReceipt {
    /// The receipt's shape.
    pub fn validate_shape(&self) -> (res: Result<(), FederationError>)
        ensures
            res is Ok <==> migration_shape(self),
            res is Err ==> res == Err::<(), FederationError>(FederationError::Invalid),
    {
        if self.receipt_version != 1 || !starts_with(self.bundle_id.as_str(), "exp_")
            || self.target_community_id.as_str().is_empty() || !is_cid(
            self.imported_root.as_str(),
        ) || self.imported_at < 0 {
            return Err(FederationError::Invalid);
        }
        Ok(())
    }

    /// The bytes the importing operator signs.
    pub fn canonical_bytes(&self) -> (res: Vec<u8>)
        ensures
            res@ == migration_canonical_spec(self),
    {
        let mut out: Vec<u8> = Vec::new();
        out.push(91);
        push_json_str(&mut out, "acm.migration-receipt.v1");
        out.push(44);
        push_dec(&mut out, self.receipt_version as u64);
        out.push(44);
        push_json_str(&mut out, self.bundle_id.as_str());
        out.push(44);
        push_json_str(&mut out, self.target_community_id.as_str());
        out.push(44);
        push_json_str(&mut out, self.imported_root.as_str());
        out.push(44);
        push_json_byte_array(&mut out, &self.operator_public_key);
        out.push(44);
        push_json_i64(&mut out, self.imported_at);
        out.push(93);
        assert(out@ =~= migration_canonical_spec(self));
        out
    }

    /// The target community's receipt of a verified bundle addressed to it.
    pub fn issue(
        bundle: &FederationBundle,
        target_community_id: String,
        imported_at: i64,
        operator: &Identity,
    ) -> (res: Result<Self, FederationError>)
        ensures
            bundle_verify_outcome(bundle) matches Err(e) ==> res == Err::<
                MigrationReceipt,
                FederationError,
            >(e),
            bundle_verify_outcome(bundle) is Ok ==> (res is Ok <==> (opt_text(
                bundle.target_community_id,
            ) == Some(target_community_id@) && imported_at >= 0)),
            bundle_verify_outcome(bundle) is Ok && res is Err ==> res == Err::<
                MigrationReceipt,
                FederationError,
            >(FederationError::Invalid),
            res matches Ok(r) ==> {
                &&& r.receipt_version == 1
                &&& r.bundle_id@ == bundle.bundle_id@
                &&& r.target_community_id == target_community_id
                &&& r.imported_root@ == bundle_root_spec(bundle.items@)
                &&& r.operator_public_key@ == ed25519_public_key_of(operator.seed())
                &&& ed25519_key_decodes(r.operator_public_key@)
                &&& r.imported_at == imported_at
                &&& r.signature@ == ed25519_signature_of(operator.seed(), migration_canonical_spec(&r))
                &&& r.signature@.len() == 64
                &&& ed25519_verifies(r.operator_public_key@, migration_canonical_spec(&r), r.signature@)
                &&& migration_shape(&r)
            },
    {
        match bundle.verify() {
            Err(e) => {
                return Err(e);
            },
            Ok(_) => {},
        }
        let addressed = match &bundle.target_community_id {
            Some(t) => str_equal(t.as_str(), target_community_id.as_str()),
            None => false,
        };
        if !addressed {
            return Err(FederationError::Invalid);
        }
        let root = bundle.merkle_root();
        proof {
            crate::text::lemma_prefix_concat(
                "exp_"@,
                hex_chars(blake3_digest(bundle_identity_spec(bundle))),
            );
        }
        let mut receipt = MigrationReceipt {
            receipt_version: 1,
            bundle_id: bundle.bundle_id.clone(),
            target_community_id,
            imported_root: root,
            operator_public_key: operator.public_key(),
            imported_at,
            signature: Vec::new(),
        };
        match receipt.validate_shape() {
            Err(e) => {
                return Err(e);
            },
            Ok(_) => {},
        }
        let canonical = receipt.canonical_bytes();
        let signature = operator.sign(&canonical);
        let mut sig: Vec<u8> = Vec::new();
        push_bytes(&mut sig, &signature);
        receipt.signature = sig;
        Ok(receipt)
    }

    /// Checks the receipt's shape, the bundle, that the receipt names the
    /// bundle and its Merkle root, and the operator's signature.
    pub fn verify(&self, bundle: &FederationBundle) -> (res: Result<(), FederationError>)
        ensures
            res == migration_verify_outcome(self, bundle),
    {
        match self.validate_shape() {
            Err(e) => {
                return Err(e);
            },
            Ok(_) => {},
        }
        match bundle.verify() {
            Err(e) => {
                return Err(e);
            },
            Ok(_) => {},
        }
        if !str_equal(self.bundle_id.as_str(), bundle.bundle_id.as_str()) {
            return Err(FederationError::Invalid);
        }
        let root = bundle.merkle_root();
        if !str_equal(self.imported_root.as_str(), root.as_str()) {
            return Err(FederationError::Invalid);
        }
        let canonical = self.canonical_bytes();
        match verify_signature(&self.operator_public_key, &canonical, self.signature.as_slice()) {
            Err(e) => Err(FederationError::Signature(e)),
            Ok(_) => Ok(()),
        }
    }
}

/// A receipt issued for a verified bundle verifies against that bundle.
pub proof fn law_issued_receipt_verifies(r: &MigrationReceipt, b: &FederationBundle)
    requires
        bundle_verify_outcome(b) is Ok,
        migration_shape(r),
        r.bundle_id@ == b.bundle_id@,
        r.imported_root@ == bundle_root_spec(b.items@),
        r.signature@.len() == 64,
        ed25519_key_decodes(r.operator_public_key@),
        ed25519_verifies(r.operator_public_key@, migration_canonical_spec(r), r.signature@),
    ensures
        migration_verify_outcome(r, b) is Ok,
{
}

} // verus!
