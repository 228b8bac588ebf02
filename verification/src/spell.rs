//! Spell contracts: signed, bounded delegations of one action over named
//! data scopes and subjects, with a budget, an invocation limit, optional
//! human approval and an expiry.
use vstd::prelude::*;
use crate::text::{utf8, field, be_bytes, be_i64, hex_chars, push_field, push_be, push_i64,
    push_bytes, str_equal};
use crate::order::{sort_dedup_by, adjacent_sorted, text_lt, texts, sort_dedup_strings,
    strings_strictly_increasing, contains_str};
use crate::hashing::blake3_digest;
use crate::identity::{Identity, IdentityError, signature_outcome, verify_signature,
    prefixed_digest, text_fields, push_text_fields};
use crate::signing::{ed25519_public_key_of, ed25519_signature_of, ed25519_verifies,
    ed25519_key_decodes};

verus! {

/// A signed spell contract.
#[derive(Debug)]
pub struct SpellContract {
    pub contract_version: u16,
    pub contract_id: String,
    pub issuer_public_key: [u8; 32],
    pub action: String,
    pub data_scopes: Vec<String>,
    pub subject_ids: Vec<String>,
    pub max_amount_minor: u64,
    pub max_invocations: u32,
    pub human_approval_required: bool,
    pub reversible: bool,
    pub issued_at: i64,
    pub expires_at: i64,
    pub signature: Vec<u8>,
}

/// One requested invocation of a spell.
#[derive(Debug)]
pub struct InvocationRequest<'a> {
    pub action: &'a str,
    pub data_scope: &'a str,
    pub subject_id: &'a str,
    pub amount_minor: u64,
    pub prior_invocations: u32,
    pub human_approved: bool,
    pub now: i64,
}

/// Why a spell contract or invocation was refused.
#[derive(Debug)]
pub enum SpellError {
    Invalid,
    Time,
    Action,
    DataScope,
    Subject,
    Budget,
    InvocationLimit,
    Approval,
    Signature(IdentityError),
}

/// The shape check over the fields it reads.
pub open spec fn spell_shape_parts(
    version: u16,
    action: Seq<char>,
    scopes: Seq<Seq<char>>,
    subjects: Seq<Seq<char>>,
    max_invocations: u32,
    issued_at: i64,
    expires_at: i64,
) -> bool {
    version == 1 && action.len() > 0 && scopes.len() > 0 && subjects.len() > 0 && max_invocations
        != 0 && issued_at >= 0 && expires_at > issued_at && adjacent_sorted(scopes, text_lt())
        && adjacent_sorted(subjects, text_lt())
}

/// Whether a contract has a valid shape.
pub open spec fn spell_shape(c: &SpellContract) -> bool {
    spell_shape_parts(
        c.contract_version,
        c.action@,
        texts(c.data_scopes@),
        texts(c.subject_ids@),
        c.max_invocations,
        c.issued_at,
        c.expires_at,
    )
}

/// One byte for a boolean.
pub open spec fn bool_byte(b: bool) -> u8 {
    if b {
        1
    } else {
        0
    }
}

/// The bytes whose digest is the contract id.
pub open spec fn spell_identity_spec(c: &SpellContract) -> Seq<u8> {
    field(utf8("acm.spell-contract.v1"@)) + be_bytes(c.contract_version as nat, 2) + field(
        c.issuer_public_key@,
    ) + field(utf8(c.action@)) + be_bytes(c.data_scopes@.len(), 4) + text_fields(
        texts(c.data_scopes@),
    ) + be_bytes(c.subject_ids@.len(), 4) + text_fields(texts(c.subject_ids@)) + be_bytes(
        c.max_amount_minor as nat,
        8,
    ) + be_bytes(c.max_invocations as nat, 4) + seq![
        bool_byte(c.human_approval_required),
        bool_byte(c.reversible),
    ] + be_i64(c.issued_at) + be_i64(c.expires_at)
}

/// The bytes the issuer signs.
pub open spec fn spell_canonical_spec(c: &SpellContract) -> Seq<u8> {
    spell_identity_spec(c) + field(utf8(c.contract_id@))
}

/// The id a contract must carry.
pub open spec fn spell_id_spec(c: &SpellContract) -> Seq<char> {
    "spl_"@ + hex_chars(blake3_digest(spell_identity_spec(c)))
}

/// What `verify` answers.
pub open spec fn spell_verify_outcome(c: &SpellContract) -> Result<(), SpellError> {
    if !spell_shape(c) {
        Err(SpellError::Invalid)
    } else if c.contract_id@ != spell_id_spec(c) {
        Err(SpellError::Invalid)
    } else {
        match signature_outcome(c.issuer_public_key@, spell_canonical_spec(c), c.signature@) {
            Err(e) => Err(SpellError::Signature(e)),
            Ok(_) => Ok(()),
        }
    }
}

/// What `authorize` answers.
pub open spec fn authorize_outcome(c: &SpellContract, r: &InvocationRequest) -> Result<(), SpellError> {
    match spell_verify_outcome(c) {
        Err(e) => Err(e),
        Ok(_) => if r.now < c.issued_at || r.now > c.expires_at {
            Err(SpellError::Time)
        } else if r.action@ != c.action@ {
            Err(SpellError::Action)
        } else if !texts(c.data_scopes@).contains(r.data_scope@) {
            Err(SpellError::DataScope)
        } else if !texts(c.subject_ids@).contains(r.subject_id@) {
            Err(SpellError::Subject)
        } else if r.amount_minor > c.max_amount_minor {
            Err(SpellError::Budget)
        } else if r.prior_invocations >= c.max_invocations {
            Err(SpellError::InvocationLimit)
        } else if c.human_approval_required && !r.human_approved {
            Err(SpellError::Approval)
        } else {
            Ok(())
        },
    }
}

impl SpellContract {
    /// Whether the contract has a valid shape.
    pub fn validate_shape(&self) -> (res: Result<(), SpellError>)
        ensures
            res is Ok <==> spell_shape(self),
            res is Err ==> res == Err::<(), SpellError>(SpellError::Invalid),
    {
        if self.contract_version != 1 || self.action.as_str().is_empty()
            || self.data_scopes.len() == 0 || self.subject_ids.len() == 0 || self.max_invocations
            == 0 || self.issued_at < 0 || self.expires_at <= self.issued_at
            || !strings_strictly_increasing(&self.data_scopes) || !strings_strictly_increasing(
            &self.subject_ids,
        ) {
            return Err(SpellError::Invalid);
        }
        Ok(())
    }

    /// The bytes whose digest is the contract id.
    pub fn identity_bytes(&self) -> (res: Vec<u8>)
        ensures
            res@ == spell_identity_spec(self),
    {
        let mut out: Vec<u8> = Vec::new();
        push_field(&mut out, "acm.spell-contract.v1".as_bytes());
        push_be(&mut out, self.contract_version as u64, 2);
        push_field(&mut out, &self.issuer_public_key);
        push_field(&mut out, self.action.as_str().as_bytes());
        push_text_fields(&mut out, &self.data_scopes);
        push_text_fields(&mut out, &self.subject_ids);
        push_be(&mut out, self.max_amount_minor, 8);
        push_be(&mut out, self.max_invocations as u64, 4);
        out.push(if self.human_approval_required {
            1
        } else {
            0
        });
        out.push(if self.reversible {
            1
        } else {
            0
        });
        push_i64(&mut out, self.issued_at);
        push_i64(&mut out, self.expires_at);
        assert(out@ =~= spell_identity_spec(self));
        out
    }

    /// The bytes the issuer signs.
    pub fn canonical_bytes(&self) -> (res: Vec<u8>)
        ensures
            res@ == spell_canonical_spec(self),
    {
        let mut out = self.identity_bytes();
        push_field(&mut out, self.contract_id.as_str().as_bytes());
        out
    }

    /// Issues a contract: scopes and subjects sorted without repetition,
    /// shape checked, id derived from the identity bytes, signed.
    pub fn issue(
        action: String,
        data_scopes: Vec<String>,
        subject_ids: Vec<String>,
        max_amount_minor: u64,
        max_invocations: u32,
        human_approval_required: bool,
        reversible: bool,
        issued_at: i64,
        expires_at: i64,
        issuer: &Identity,
    ) -> (res: Result<Self, SpellError>)
        ensures
            !spell_shape_parts(
                1,
                action@,
                sort_dedup_by(texts(data_scopes@), text_lt()),
                sort_dedup_by(texts(subject_ids@), text_lt()),
                max_invocations,
                issued_at,
                expires_at,
            ) ==> res == Err::<SpellContract, SpellError>(SpellError::Invalid),
            spell_shape_parts(
                1,
                action@,
                sort_dedup_by(texts(data_scopes@), text_lt()),
                sort_dedup_by(texts(subject_ids@), text_lt()),
                max_invocations,
                issued_at,
                expires_at,
            ) ==> (res matches Ok(c) && {
                &&& c.contract_version == 1
                &&& c.action == action
                &&& texts(c.data_scopes@) == sort_dedup_by(texts(data_scopes@), text_lt())
                &&& texts(c.subject_ids@) == sort_dedup_by(texts(subject_ids@), text_lt())
                &&& c.max_amount_minor == max_amount_minor
                &&& c.max_invocations == max_invocations
                &&& c.human_approval_required == human_approval_required
                &&& c.reversible == reversible
                &&& c.issued_at == issued_at
                &&& c.expires_at == expires_at
                &&& c.issuer_public_key@ == ed25519_public_key_of(issuer.seed())
                &&& ed25519_key_decodes(c.issuer_public_key@)
                &&& c.contract_id@ == spell_id_spec(&c)
                &&& c.signature@ == ed25519_signature_of(issuer.seed(), spell_canonical_spec(&c))
                &&& c.signature@.len() == 64
                &&& ed25519_verifies(c.issuer_public_key@, spell_canonical_spec(&c), c.signature@)
            }),
    {
        let scopes = sort_dedup_strings(&data_scopes);
        let subjects = sort_dedup_strings(&subject_ids);
        let mut contract = SpellContract {
            contract_version: 1,
            contract_id: String::new(),
            issuer_public_key: issuer.public_key(),
            action,
            data_scopes: scopes,
            subject_ids: subjects,
            max_amount_minor,
            max_invocations,
            human_approval_required,
            reversible,
            issued_at,
            expires_at,
            signature: Vec::new(),
        };
        match contract.validate_shape() {
            Err(e) => {
                return Err(e);
            },
            Ok(_) => {},
        }
        let identity = contract.identity_bytes();
        contract.contract_id = prefixed_digest("spl_", &identity);
        let canonical = contract.canonical_bytes();
        let signature = issuer.sign(&canonical);
        let mut sig: Vec<u8> = Vec::new();
        push_bytes(&mut sig, &signature);
        contract.signature = sig;
        Ok(contract)
    }

    /// Checks shape, id and the issuer's signature.
    pub fn verify(&self) -> (res: Result<(), SpellError>)
        ensures
            res == spell_verify_outcome(self),
    {
        match self.validate_shape() {
            Err(e) => {
                return Err(e);
            },
            Ok(_) => {},
        }
        let identity = self.identity_bytes();
        let expected = prefixed_digest("spl_", &identity);
        if !str_equal(self.contract_id.as_str(), expected.as_str()) {
            return Err(SpellError::Invalid);
        }
        let canonical = self.canonical_bytes();
        match verify_signature(&self.issuer_public_key, &canonical, self.signature.as_slice()) {
            Err(e) => Err(SpellError::Signature(e)),
            Ok(_) => Ok(()),
        }
    }

    /// Whether the contract permits the requested invocation.
    pub fn authorize(&self, request: &InvocationRequest) -> (res: Result<(), SpellError>)
        ensures
            res == authorize_outcome(self, request),
    {
        match self.verify() {
            Err(e) => {
                return Err(e);
            },
            Ok(_) => {},
        }
        if request.now < self.issued_at || request.now > self.expires_at {
            return Err(SpellError::Time);
        }
        if !str_equal(request.action, self.action.as_str()) {
            return Err(SpellError::Action);
        }
        if !contains_str(&self.data_scopes, request.data_scope) {
            return Err(SpellError::DataScope);
        }
        if !contains_str(&self.subject_ids, request.subject_id) {
            return Err(SpellError::Subject);
        }
        if request.amount_minor > self.max_amount_minor {
            return Err(SpellError::Budget);
        }
        if request.prior_invocations >= self.max_invocations {
            return Err(SpellError::InvocationLimit);
        }
        if self.human_approval_required && !request.human_approved {
            return Err(SpellError::Approval);
        }
        Ok(())
    }
}

/// A contract that `issue` returns verifies.
pub proof fn law_issued_spell_verifies(c: &SpellContract)
    requires
        spell_shape(c),
        c.contract_id@ == spell_id_spec(c),
        c.signature@.len() == 64,
        ed25519_key_decodes(c.issuer_public_key@),
        ed25519_verifies(c.issuer_public_key@, spell_canonical_spec(c), c.signature@),
    ensures
        spell_verify_outcome(c) is Ok,
{
}

/// A valid contract authorizes exactly the invocations inside every bound:
/// within its window, its action, one of its scopes and subjects, within
/// budget and invocation limit, with approval where required.
pub proof fn law_authorize_within_bounds(c: &SpellContract, r: &InvocationRequest)
    requires
        spell_verify_outcome(c) is Ok,
    ensures
        authorize_outcome(c, r) is Ok <==> {
            &&& c.issued_at <= r.now <= c.expires_at
            &&& r.action@ == c.action@
            &&& texts(c.data_scopes@).contains(r.data_scope@)
            &&& texts(c.subject_ids@).contains(r.subject_id@)
            &&& r.amount_minor <= c.max_amount_minor
            &&& r.prior_invocations < c.max_invocations
            &&& (c.human_approval_required ==> r.human_approved)
        },
{
}

} // verus!
