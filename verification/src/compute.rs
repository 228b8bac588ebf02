//! Compute-to-data attestations: a signed statement that an approved,
//! measured runtime ran a capability under a spell over given inputs.
use vstd::prelude::*;
use crate::text::{utf8, is_cid, is_cid_bytes, has_prefix, starts_with, push_bytes, str_equal,
    hex_chars};
use crate::json::{json_text, json_text_array, json_byte_array, json_int, dec, push_json_str,
    push_json_str_array, push_json_byte_array, push_json_i64, push_dec};
use crate::order::{sort_dedup_by, adjacent_sorted, text_lt, texts, sort_dedup_strings,
    strings_strictly_increasing, contains_str};
use crate::hashing::blake3_digest;
use crate::identity::{Identity, IdentityError, signature_outcome, verify_signature,
    prefixed_digest};
use crate::signing::{ed25519_public_key_of, ed25519_signature_of, ed25519_verifies,
    ed25519_key_decodes};

verus! {

/// A signed execution attestation.
#[derive(Debug)]
pub struct ExecutionAttestation {
    pub attestation_version: u16,
    pub execution_id: String,
    pub capability_id: String,
    pub spell_contract_id: String,
    pub runtime_measurement: String,
    pub input_cids: Vec<String>,
    pub output_cid: String,
    pub executor_public_key: [u8; 32],
    pub started_at: i64,
    pub completed_at: i64,
    pub signature: Vec<u8>,
}

/// Why an attestation was refused.
#[derive(Debug)]
pub enum ComputeError {
    Invalid,
    Measurement,
    Signature(IdentityError),
}

/// Every string is a content identifier.
pub open spec fn all_cids(s: Seq<Seq<char>>) -> bool {
    forall|i: int| 0 <= i < s.len() ==> is_cid_bytes(utf8(#[trigger] s[i]))
}

/// The shape check over the fields it reads.
pub open spec fn attestation_shape_parts(
    version: u16,
    capability_id: Seq<char>,
    spell_contract_id: Seq<char>,
    measurement: Seq<char>,
    inputs: Seq<Seq<char>>,
    output: Seq<char>,
    started_at: i64,
    completed_at: i64,
) -> bool {
    &&& version == 1
    &&& has_prefix(utf8(capability_id), utf8("cap_"@))
    &&& has_prefix(utf8(spell_contract_id), utf8("spl_"@))
    &&& is_cid_bytes(utf8(measurement))
    &&& inputs.len() > 0
    &&& all_cids(inputs)
    &&& adjacent_sorted(inputs, text_lt())
    &&& is_cid_bytes(utf8(output))
    &&& started_at >= 0
    &&& completed_at >= started_at
}

/// Whether an attestation has a valid shape.
pub open spec fn attestation_shape(a: &ExecutionAttestation) -> bool {
    attestation_shape_parts(
        a.attestation_version,
        a.capability_id@,
        a.spell_contract_id@,
        a.runtime_measurement@,
        texts(a.input_cids@),
        a.output_cid@,
        a.started_at,
        a.completed_at,
    )
}

/// The JSON tuple whose digest is the execution id.
pub open spec fn attestation_identity_spec(a: &ExecutionAttestation) -> Seq<u8> {
    seq![91u8] + json_text("acm.execution-attestation.v1"@) + seq![44u8] + dec(
        a.attestation_version as nat,
    ) + seq![44u8] + json_text(a.capability_id@) + seq![44u8] + json_text(a.spell_contract_id@)
        + seq![44u8] + json_text(a.runtime_measurement@) + seq![44u8] + json_text_array(
        texts(a.input_cids@),
    ) + seq![44u8] + json_text(a.output_cid@) + seq![44u8] + json_byte_array(
        a.executor_public_key@,
    ) + seq![44u8] + json_int(a.started_at as int) + seq![44u8] + json_int(
        a.completed_at as int,
    ) + seq![93u8]
}

/// The bytes the executor signs.
pub open spec fn attestation_canonical_spec(a: &ExecutionAttestation) -> Seq<u8> {
    attestation_identity_spec(a) + utf8(a.execution_id@)
}

/// The id an attestation must carry.
pub open spec fn attestation_id_spec(a: &ExecutionAttestation) -> Seq<char> {
    "exe_"@ + hex_chars(blake3_digest(attestation_identity_spec(a)))
}

/// What `verify` answers.
pub open spec fn attestation_verify_outcome(a: &ExecutionAttestation, approved: Seq<Seq<char>>) -> Result<
    (),
    ComputeError,
> {
    if !attestation_shape(a) {
        Err(ComputeError::Invalid)
    } else if a.execution_id@ != attestation_id_spec(a) {
        Err(ComputeError::Invalid)
    } else if !approved.contains(a.runtime_measurement@) {
        Err(ComputeError::Measurement)
    } else {
        match signature_outcome(a.executor_public_key@, attestation_canonical_spec(a), a.signature@) {
            Err(e) => Err(ComputeError::Signature(e)),
            Ok(_) => Ok(()),
        }
    }
}

/// Whether every string of a vector is a content identifier.
pub fn all_are_cids(v: &Vec<String>) -> (res: bool)
    ensures
        res == all_cids(texts(v@)),
{
    let mut i: usize = 0;
    while i < v.len()
        invariant
            0 <= i <= v@.len(),
            forall|k: int| 0 <= k < i ==> is_cid_bytes(utf8(#[trigger] texts(v@)[k])),
        decreases v@.len() - i,
    {
        if !is_cid(v[i].as_str()) {
            assert(!is_cid_bytes(utf8(texts(v@)[i as int])));
            return false;
        }
        i = i + 1;
    }
    true
}

impl ExecutionAttestation {
    /// Whether the attestation has a valid shape.
    pub fn validate_shape(&self) -> (res: Result<(), ComputeError>)
        ensures
            res is Ok <==> attestation_shape(self),
            res is Err ==> res == Err::<(), ComputeError>(ComputeError::Invalid),
    {
        if self.attestation_version != 1 || !starts_with(self.capability_id.as_str(), "cap_")
            || !starts_with(self.spell_contract_id.as_str(), "spl_") || !is_cid(
            self.runtime_measurement.as_str(),
        ) || self.input_cids.len() == 0 || !all_are_cids(&self.input_cids)
            || !strings_strictly_increasing(&self.input_cids) || !is_cid(self.output_cid.as_str())
            || self.started_at < 0 || self.completed_at < self.started_at {
            return Err(ComputeError::Invalid);
        }
        Ok(())
    }

    /// The JSON tuple whose digest is the execution id.
    pub fn identity_bytes(&self) -> (res: Vec<u8>)
        ensures
            res@ == attestation_identity_spec(self),
    {
        let mut out: Vec<u8> = Vec::new();
        out.push(91);
        push_json_str(&mut out, "acm.execution-attestation.v1");
        out.push(44);
        push_dec(&mut out, self.attestation_version as u64);
        out.push(44);
        push_json_str(&mut out, self.capability_id.as_str());
        out.push(44);
        push_json_str(&mut out, self.spell_contract_id.as_str());
        out.push(44);
        push_json_str(&mut out, self.runtime_measurement.as_str());
        out.push(44);
        push_json_str_array(&mut out, &self.input_cids);
        out.push(44);
        push_json_str(&mut out, self.output_cid.as_str());
        out.push(44);
        push_json_byte_array(&mut out, &self.executor_public_key);
        out.push(44);
        push_json_i64(&mut out, self.started_at);
        out.push(44);
        push_json_i64(&mut out, self.completed_at);
        out.push(93);
        assert(out@ =~= attestation_identity_spec(self));
        out
    }

    /// The bytes the executor signs.
    pub fn canonical_bytes(&self) -> (res: Vec<u8>)
        ensures
            res@ == attestation_canonical_spec(self),
    {
        let mut out = self.identity_bytes();
        push_bytes(&mut out, self.execution_id.as_str().as_bytes());
        out
    }

    /// Issues an attestation: inputs sorted without repetition, shape
    /// checked, id derived from the identity bytes, signed by the executor.
    pub fn issue(
        capability_id: String,
        spell_contract_id: String,
        runtime_measurement: String,
        input_cids: Vec<String>,
        output_cid: String,
        started_at: i64,
        completed_at: i64,
        executor: &Identity,
    ) -> (res: Result<Self, ComputeError>)
        ensures
            !attestation_shape_parts(
                1,
                capability_id@,
                spell_contract_id@,
                runtime_measurement@,
                sort_dedup_by(texts(input_cids@), text_lt()),
                output_cid@,
                started_at,
                completed_at,
            ) ==> res == Err::<ExecutionAttestation, ComputeError>(ComputeError::Invalid),
            attestation_shape_parts(
                1,
                capability_id@,
                spell_contract_id@,
                runtime_measurement@,
                sort_dedup_by(texts(input_cids@), text_lt()),
                output_cid@,
                started_at,
                completed_at,
            ) ==> (res matches Ok(a) && {
                &&& a.attestation_version == 1
                &&& a.capability_id == capability_id
                &&& a.spell_contract_id == spell_contract_id
                &&& a.runtime_measurement == runtime_measurement
                &&& texts(a.input_cids@) == sort_dedup_by(texts(input_cids@), text_lt())
                &&& a.output_cid == output_cid
                &&& a.started_at == started_at
                &&& a.completed_at == completed_at
                &&& a.executor_public_key@ == ed25519_public_key_of(executor.seed())
                &&& ed25519_key_decodes(a.executor_public_key@)
                &&& a.execution_id@ == attestation_id_spec(&a)
                &&& a.signature@ == ed25519_signature_of(
                    executor.seed(),
                    attestation_canonical_spec(&a),
                )
                &&& a.signature@.len() == 64
                &&& ed25519_verifies(
                    a.executor_public_key@,
                    attestation_canonical_spec(&a),
                    a.signature@,
                )
            }),
    {
        let inputs = sort_dedup_strings(&input_cids);
        let mut attestation = ExecutionAttestation {
            attestation_version: 1,
            execution_id: String::new(),
            capability_id,
            spell_contract_id,
            runtime_measurement,
            input_cids: inputs,
            output_cid,
            executor_public_key: executor.public_key(),
            started_at,
            completed_at,
            signature: Vec::new(),
        };
        match attestation.validate_shape() {
            Err(e) => {
                return Err(e);
            },
            Ok(_) => {},
        }
        let identity = attestation.identity_bytes();
        attestation.execution_id = prefixed_digest("exe_", &identity);
        let canonical = attestation.canonical_bytes();
        let signature = executor.sign(&canonical);
        let mut sig: Vec<u8> = Vec::new();
        push_bytes(&mut sig, &signature);
        attestation.signature = sig;
        Ok(attestation)
    }

    /// Checks shape, id, that the runtime measurement is approved, and the
    /// executor's signature.
    pub fn verify(&self, approved_measurements: &Vec<String>) -> (res: Result<(), ComputeError>)
        ensures
            res == attestation_verify_outcome(self, texts(approved_measurements@)),
    {
        match self.validate_shape() {
            Err(e) => {
                return Err(e);
            },
            Ok(_) => {},
        }
        let identity = self.identity_bytes();
        let expected = prefixed_digest("exe_", &identity);
        if !str_equal(self.execution_id.as_str(), expected.as_str()) {
            return Err(ComputeError::Invalid);
        }
        if !contains_str(approved_measurements, self.runtime_measurement.as_str()) {
            return Err(ComputeError::Measurement);
        }
        let canonical = self.canonical_bytes();
        match verify_signature(&self.executor_public_key, &canonical, self.signature.as_slice()) {
            Err(e) => Err(ComputeError::Signature(e)),
            Ok(_) => Ok(()),
        }
    }
}

/// An attestation that `issue` returns verifies exactly against the lists of
/// approved measurements that hold its measurement.
pub proof fn law_issued_attestation_verifies_iff_approved(
    a: &ExecutionAttestation,
    approved: Seq<Seq<char>>,
)
    requires
        attestation_shape(a),
        a.execution_id@ == attestation_id_spec(a),
        a.signature@.len() == 64,
        ed25519_key_decodes(a.executor_public_key@),
        ed25519_verifies(a.executor_public_key@, attestation_canonical_spec(a), a.signature@),
    ensures
        attestation_verify_outcome(a, approved) is Ok <==> approved.contains(
            a.runtime_measurement@,
        ),
{
}

} // verus!
