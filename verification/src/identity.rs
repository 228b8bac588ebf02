//! Member identities, membership credentials and node certificates.
use vstd::prelude::*;
use crate::text::{utf8, field, be_bytes, be_i64, hex, hex_chars, push_field, push_be, push_i64,
    str_equal, bytes_eq};
use crate::order::{sort_by, text_lt, texts, sort_strings};
use crate::hashing::{blake3_digest, blake3_hash};
use crate::signing::{ed25519_public_key_of, ed25519_signature_of, ed25519_key_decodes,
    ed25519_verifies, ed25519_derive_public, ed25519_sign, ed25519_key_is_valid, ed25519_verify};

verus! {

/// Why an identity check failed.
#[derive(Clone, Copy, Debug, PartialEq, Eq, Structural)]
pub enum IdentityError {
    PublicKey,
    Signature,
    Time,
    Community,
    Domain,
}

/// A member's signing identity: a 32-byte Ed25519 secret seed.
pub struct Identity {
    secret: [u8; 32],
}

/// The member id of a public key: `mem_` and the hex of its BLAKE3 digest.
pub open spec fn member_id_of(public_key: Seq<u8>) -> Seq<char> {
    "mem_"@ + hex_chars(blake3_digest(public_key))
}

/// Concatenates two string slices.
pub fn concat_str(a: &str, b: &str) -> (res: String)
    ensures
        res@ == a@ + b@,
{
    let mut s = a.to_owned();
    s.append(b);
    s
}

/// `prefix` followed by the hex of the BLAKE3 digest of `data`.
pub fn prefixed_digest(prefix: &str, data: &[u8]) -> (res: String)
    ensures
        res@ == prefix@ + hex_chars(blake3_digest(data@)),
{
    let digest = blake3_hash(data);
    let h = hex(&digest);
    concat_str(prefix, h.as_str())
}

/// Member id of a public key.
pub fn member_id_for(public_key: &[u8; 32]) -> (res: String)
    ensures
        res@ == member_id_of(public_key@),
{
    prefixed_digest("mem_", public_key)
}

impl Identity {
    /// The secret seed.
    pub closed spec fn seed(&self) -> Seq<u8> {
        self.secret@
    }

    /// A fresh identity from operating-system randomness.
    pub fn generate() -> (res: Self) {
        Identity { secret: crate::signing::ed25519_generate_seed() }
    }

    /// The identity of a secret seed.
    pub fn from_seed(secret: [u8; 32]) -> (res: Self)
        ensures
            res.seed() == secret@,
    {
        Identity { secret }
    }

    /// The Ed25519 public key.
    pub fn public_key(&self) -> (res: [u8; 32])
        ensures
            res@ == ed25519_public_key_of(self.seed()),
            ed25519_key_decodes(res@),
    {
        ed25519_derive_public(&self.secret)
    }

    /// The member id: `mem_` and the hex BLAKE3 digest of the public key.
    pub fn member_id(&self) -> (res: String)
        ensures
            res@ == member_id_of(ed25519_public_key_of(self.seed())),
    {
        let public_key = self.public_key();
        member_id_for(&public_key)
    }

    /// Signs bytes.
    pub fn sign(&self, bytes: &[u8]) -> (res: [u8; 64])
        ensures
            res@ == ed25519_signature_of(self.seed(), bytes@),
            ed25519_verifies(ed25519_public_key_of(self.seed()), bytes@, res@),
    {
        ed25519_sign(&self.secret, bytes)
    }
}

/// A signature is accepted: the key is a curve point, the signature has 64
/// bytes and verifies.
pub open spec fn signature_accepted(public_key: Seq<u8>, message: Seq<u8>, signature: Seq<u8>) -> bool {
    ed25519_key_decodes(public_key) && signature.len() == 64 && ed25519_verifies(
        public_key,
        message,
        signature,
    )
}

/// The error `verify_signature` gives, if any.
pub open spec fn signature_outcome(public_key: Seq<u8>, message: Seq<u8>, signature: Seq<u8>) -> Result<
    (),
    IdentityError,
> {
    if !ed25519_key_decodes(public_key) {
        Err(IdentityError::PublicKey)
    } else if !signature_accepted(public_key, message, signature) {
        Err(IdentityError::Signature)
    } else {
        Ok(())
    }
}

/// Verifies an Ed25519 signature of `message` under `public_key`.
pub fn verify_signature(public_key: &[u8; 32], message: &[u8], signature: &[u8]) -> (res: Result<
    (),
    IdentityError,
>)
    ensures
        res == signature_outcome(public_key@, message@, signature@),
{
    if !ed25519_key_is_valid(public_key) {
        return Err(IdentityError::PublicKey);
    }
    if signature.len() != 64 {
        return Err(IdentityError::Signature);
    }
    let mut bytes = [0u8; 64];
    let mut i: usize = 0;
    while i < 64
        invariant
            signature@.len() == 64,
            0 <= i <= 64,
            forall|k: int| 0 <= k < i ==> bytes@[k] == signature@[k],
        decreases 64 - i,
    {
        bytes[i] = signature[i];
        i = i + 1;
    }
    assert(bytes@ =~= signature@);
    if ed25519_verify(public_key, message, &bytes) {
        Ok(())
    } else {
        Err(IdentityError::Signature)
    }
}

/// Whether a time window, widened by the clock skew, contains `now`.
pub open spec fn within_window(now: int, skew: int, issued_at: int, expires_at: int) -> bool {
    !(now + skew < issued_at || now - skew > expires_at)
}

/// The window check of a time stamp does not overflow: `now + skew` fits,
/// and `now - skew` fits where it is reached, after `now + skew` did not
/// already fall before `issued_at`.
pub open spec fn window_fits(now: int, skew: int, issued_at: int) -> bool {
    i64::MIN <= now + skew <= i64::MAX && (now + skew >= issued_at ==> i64::MIN <= now - skew
        <= i64::MAX)
}

/// `MembershipCredential::verify` reaches its window check only for a
/// version-1 credential of the community; there the check must not
/// overflow.
pub open spec fn membership_time_fits(c: &MembershipCredential, community_id: Seq<char>, now: int, skew: int) -> bool {
    (c.claims.credential_version == 1 && c.claims.community_id@ == community_id) ==> window_fits(
        now,
        skew,
        c.claims.issued_at as int,
    )
}

/// `MembershipCredential::verify_trusted` reaches `verify` only for the
/// expected issuer and a member id that matches the member's key.
pub open spec fn trusted_time_fits(
    c: &MembershipCredential,
    community_id: Seq<char>,
    issuer: Seq<u8>,
    now: int,
    skew: int,
) -> bool {
    (c.claims.issuer_public_key@ == issuer && c.claims.member_id@ == member_id_of(
        c.claims.member_public_key@,
    )) ==> membership_time_fits(c, community_id, now, skew)
}

/// The claims of a membership credential.
#[derive(Clone, Debug)]
pub struct MembershipClaims {
    pub credential_version: u16,
    pub community_id: String,
    pub member_public_key: [u8; 32],
    pub member_id: String,
    pub roles: Vec<String>,
    pub issued_at: i64,
    pub expires_at: i64,
    pub serial: u64,
    pub issuer_public_key: [u8; 32],
}

/// A membership credential: claims signed by the community issuer.
#[derive(Clone, Debug)]
pub struct MembershipCredential {
    pub claims: MembershipClaims,
    pub signature: Vec<u8>,
}

/// The claims of a node certificate.
#[derive(Clone, Debug)]
pub struct NodeCertificateClaims {
    pub certificate_version: u16,
    pub node_id: String,
    pub community_id: String,
    pub owner_member_id: String,
    pub endpoint_public_key: String,
    pub allowed_roles: Vec<String>,
    pub max_storage_bytes: u64,
    pub issued_at: i64,
    pub expires_at: i64,
}

/// A node certificate: claims signed by the node's owner.
#[derive(Clone, Debug)]
pub struct NodeCertificate {
    pub claims: NodeCertificateClaims,
    pub signature: Vec<u8>,
}

/// Length-prefixed fields of each string, concatenated.
pub open spec fn text_fields(s: Seq<Seq<char>>) -> Seq<u8>
    decreases s.len(),
{
    if s.len() == 0 {
        seq![]
    } else {
        text_fields(s.drop_last()) + field(utf8(s.last()))
    }
}

/// A count, then the fields of the strings in byte order.
pub open spec fn sorted_role_fields(roles: Seq<Seq<char>>) -> Seq<u8> {
    be_bytes(roles.len(), 4) + text_fields(sort_by(roles, text_lt()))
}

/// Appends a count and the length-prefixed fields of strings, in order.
pub fn push_text_fields(out: &mut Vec<u8>, v: &Vec<String>)
    ensures
        final(out)@ == old(out)@ + be_bytes(v@.len(), 4) + text_fields(texts(v@)),
{
    push_be(out, v.len() as u64, 4);
    let ghost start = out@;
    let mut i: usize = 0;
    while i < v.len()
        invariant
            0 <= i <= v@.len(),
            out@ == start + text_fields(texts(v@).take(i as int)),
        decreases v@.len() - i,
    {
        push_field(out, v[i].as_str().as_bytes());
        assert(texts(v@).take(i + 1).drop_last() =~= texts(v@).take(i as int));
        i = i + 1;
    }
    assert(texts(v@).take(v@.len() as int) =~= texts(v@));
}

impl MembershipClaims {
    /// The bytes the issuer signs.
    pub open spec fn canonical_spec(&self) -> Seq<u8> {
        field(utf8("acm.membership.v1"@)) + be_bytes(self.credential_version as nat, 2) + field(
            utf8(self.community_id@),
        ) + field(self.member_public_key@) + field(utf8(self.member_id@)) + sorted_role_fields(
            texts(self.roles@),
        ) + be_i64(self.issued_at) + be_i64(self.expires_at) + be_bytes(self.serial as nat, 8)
            + field(self.issuer_public_key@)
    }

    /// Canonical signing bytes; roles are sorted, so their order does not matter.
    pub fn canonical_bytes(&self) -> (res: Vec<u8>)
        ensures
            res@ == self.canonical_spec(),
    {
        let roles = sort_strings(&self.roles);
        let mut out: Vec<u8> = Vec::new();
        push_field(&mut out, "acm.membership.v1".as_bytes());
        push_be(&mut out, self.credential_version as u64, 2);
        push_field(&mut out, self.community_id.as_str().as_bytes());
        push_field(&mut out, &self.member_public_key);
        push_field(&mut out, self.member_id.as_str().as_bytes());
        push_text_fields(&mut out, &roles);
        push_i64(&mut out, self.issued_at);
        push_i64(&mut out, self.expires_at);
        push_be(&mut out, self.serial, 8);
        push_field(&mut out, &self.issuer_public_key);
        proof {
            lemma_sort_len(texts(self.roles@));
        }
        assert(out@ =~= self.canonical_spec());
        out
    }

    /// Signs the claims with the issuer's identity.
    pub fn issue(self, issuer: &Identity) -> (res: MembershipCredential)
        ensures
            res.claims == self,
            res.signature@ == ed25519_signature_of(issuer.seed(), self.canonical_spec()),
            res.signature@.len() == 64,
            ed25519_verifies(ed25519_public_key_of(issuer.seed()), self.canonical_spec(), res.signature@),
    {
        let bytes = self.canonical_bytes();
        let signature = issuer.sign(&bytes);
        let mut sig: Vec<u8> = Vec::new();
        crate::text::push_bytes(&mut sig, &signature);
        assert(sig@ =~= signature@);
        MembershipCredential { claims: self, signature: sig }
    }
}

/// Sorting keeps the length.
pub proof fn lemma_sort_len(s: Seq<Seq<char>>)
    ensures
        sort_by(s, text_lt()).len() == s.len(),
    decreases s.len(),
{
    if s.len() > 0 {
        lemma_sort_len(s.drop_last());
        lemma_insert_len(sort_by(s.drop_last(), text_lt()), s.last());
    }
}

/// Inserting adds one element.
pub proof fn lemma_insert_len(s: Seq<Seq<char>>, x: Seq<char>)
    ensures
        crate::order::insert_by(s, x, text_lt()).len() == s.len() + 1,
    decreases s.len(),
{
    if s.len() > 0 {
        lemma_insert_len(s.drop_first(), x);
    }
}

/// What `MembershipCredential::verify` answers.
pub open spec fn membership_outcome(
    c: &MembershipCredential,
    community_id: Seq<char>,
    now: int,
    skew: int,
) -> Result<(), IdentityError> {
    if c.claims.credential_version != 1 {
        Err(IdentityError::Domain)
    } else if c.claims.community_id@ != community_id {
        Err(IdentityError::Community)
    } else if !within_window(now, skew, c.claims.issued_at as int, c.claims.expires_at as int) {
        Err(IdentityError::Time)
    } else {
        signature_outcome(c.claims.issuer_public_key@, c.claims.canonical_spec(), c.signature@)
    }
}

/// What `MembershipCredential::verify_trusted` answers.
pub open spec fn trusted_membership_outcome(
    c: &MembershipCredential,
    community_id: Seq<char>,
    issuer: Seq<u8>,
    now: int,
    skew: int,
) -> Result<(), IdentityError> {
    if c.claims.issuer_public_key@ != issuer {
        Err(IdentityError::Signature)
    } else if c.claims.member_id@ != member_id_of(c.claims.member_public_key@) {
        Err(IdentityError::Domain)
    } else {
        membership_outcome(c, community_id, now, skew)
    }
}

impl MembershipCredential {
    /// Checks version, community, validity window and the issuer's signature.
    pub fn verify(&self, community_id: &str, now: i64, clock_skew_seconds: i64) -> (res: Result<
        (),
        IdentityError,
    >)
        requires
            membership_time_fits(self, community_id@, now as int, clock_skew_seconds as int),
        ensures
            res == membership_outcome(self, community_id@, now as int, clock_skew_seconds as int),
    {
        if self.claims.credential_version != 1 {
            return Err(IdentityError::Domain);
        }
        if !str_equal(self.claims.community_id.as_str(), community_id) {
            return Err(IdentityError::Community);
        }
        if now + clock_skew_seconds < self.claims.issued_at || now - clock_skew_seconds
            > self.claims.expires_at {
            return Err(IdentityError::Time);
        }
        let bytes = self.claims.canonical_bytes();
        verify_signature(&self.claims.issuer_public_key, &bytes, self.signature.as_slice())
    }

    /// Like `verify`, and the issuer must be the expected key and the member
    /// id must be the one of the member's public key.
    pub fn verify_trusted(
        &self,
        community_id: &str,
        expected_issuer_public_key: &[u8; 32],
        now: i64,
        clock_skew_seconds: i64,
    ) -> (res: Result<(), IdentityError>)
        requires
            trusted_time_fits(
                self,
                community_id@,
                expected_issuer_public_key@,
                now as int,
                clock_skew_seconds as int,
            ),
        ensures
            res == trusted_membership_outcome(
                self,
                community_id@,
                expected_issuer_public_key@,
                now as int,
                clock_skew_seconds as int,
            ),
    {
        if !bytes_eq(&self.claims.issuer_public_key, expected_issuer_public_key) {
            return Err(IdentityError::Signature);
        }
        let expected_member_id = member_id_for(&self.claims.member_public_key);
        if !str_equal(self.claims.member_id.as_str(), expected_member_id.as_str()) {
            return Err(IdentityError::Domain);
        }
        self.verify(community_id, now, clock_skew_seconds)
    }

    /// Verifies a signature made by the credential's member.
    pub fn verify_member_signature(&self, message: &[u8], signature: &[u8]) -> (res: Result<
        (),
        IdentityError,
    >)
        ensures
            res == signature_outcome(self.claims.member_public_key@, message@, signature@),
    {
        verify_signature(&self.claims.member_public_key, message, signature)
    }
}

impl NodeCertificateClaims {
    /// The bytes the owner signs.
    pub open spec fn canonical_spec(&self) -> Seq<u8> {
        field(utf8("acm.node-certificate.v1"@)) + be_bytes(self.certificate_version as nat, 2)
            + field(utf8(self.node_id@)) + field(utf8(self.community_id@)) + field(
            utf8(self.owner_member_id@),
        ) + field(utf8(self.endpoint_public_key@)) + sorted_role_fields(
            texts(self.allowed_roles@),
        ) + be_bytes(self.max_storage_bytes as nat, 8) + be_i64(self.issued_at) + be_i64(
            self.expires_at,
        )
    }

    /// Canonical signing bytes; roles are sorted, so their order does not matter.
    pub fn canonical_bytes(&self) -> (res: Vec<u8>)
        ensures
            res@ == self.canonical_spec(),
    {
        let roles = sort_strings(&self.allowed_roles);
        let mut out: Vec<u8> = Vec::new();
        push_field(&mut out, "acm.node-certificate.v1".as_bytes());
        push_be(&mut out, self.certificate_version as u64, 2);
        push_field(&mut out, self.node_id.as_str().as_bytes());
        push_field(&mut out, self.community_id.as_str().as_bytes());
        push_field(&mut out, self.owner_member_id.as_str().as_bytes());
        push_field(&mut out, self.endpoint_public_key.as_str().as_bytes());
        push_text_fields(&mut out, &roles);
        push_be(&mut out, self.max_storage_bytes, 8);
        push_i64(&mut out, self.issued_at);
        push_i64(&mut out, self.expires_at);
        proof {
            lemma_sort_len(texts(self.allowed_roles@));
        }
        assert(out@ =~= self.canonical_spec());
        out
    }

    /// Signs the claims with the owner's identity.
    pub fn issue(self, owner: &Identity) -> (res: NodeCertificate)
        ensures
            res.claims == self,
            res.signature@ == ed25519_signature_of(owner.seed(), self.canonical_spec()),
            res.signature@.len() == 64,
            ed25519_verifies(ed25519_public_key_of(owner.seed()), self.canonical_spec(), res.signature@),
    {
        let bytes = self.canonical_bytes();
        let signature = owner.sign(&bytes);
        let mut sig: Vec<u8> = Vec::new();
        crate::text::push_bytes(&mut sig, &signature);
        assert(sig@ =~= signature@);
        NodeCertificate { claims: self, signature: sig }
    }
}

/// What `NodeCertificate::verify` answers.
pub open spec fn node_certificate_outcome(
    c: &NodeCertificate,
    owner: Seq<u8>,
    community_id: Seq<char>,
    endpoint: Seq<char>,
    now: int,
    skew: int,
) -> Result<(), IdentityError> {
    if c.claims.certificate_version != 1 || c.claims.endpoint_public_key@ != endpoint
        || !texts(c.claims.allowed_roles@).contains("node"@) || c.claims.max_storage_bytes == 0 {
        Err(IdentityError::Domain)
    } else if c.claims.community_id@ != community_id {
        Err(IdentityError::Community)
    } else if c.claims.owner_member_id@ != member_id_of(owner) {
        Err(IdentityError::Domain)
    } else if !within_window(now, skew, c.claims.issued_at as int, c.claims.expires_at as int) {
        Err(IdentityError::Time)
    } else {
        signature_outcome(owner, c.claims.canonical_spec(), c.signature@)
    }
}

/// `NodeCertificate::verify` reaches its window check only once the
/// version, endpoint, role, quota, community and owner checks pass; there
/// the check must not overflow.
pub open spec fn certificate_time_fits(
    c: &NodeCertificate,
    owner: Seq<u8>,
    community_id: Seq<char>,
    endpoint: Seq<char>,
    now: int,
    skew: int,
) -> bool {
    (c.claims.certificate_version == 1 && c.claims.endpoint_public_key@ == endpoint && texts(
        c.claims.allowed_roles@,
    ).contains("node"@) && c.claims.max_storage_bytes != 0 && c.claims.community_id@ == community_id
        && c.claims.owner_member_id@ == member_id_of(owner)) ==> window_fits(
        now,
        skew,
        c.claims.issued_at as int,
    )
}

impl NodeCertificate {
    /// Checks that the certificate binds `expected_endpoint_public_key` to the
    /// owner in the community, for the node role, at `now`.
    pub fn verify(
        &self,
        owner_public_key: &[u8; 32],
        expected_community_id: &str,
        expected_endpoint_public_key: &str,
        now: i64,
        clock_skew_seconds: i64,
    ) -> (res: Result<(), IdentityError>)
        requires
            certificate_time_fits(
                self,
                owner_public_key@,
                expected_community_id@,
                expected_endpoint_public_key@,
                now as int,
                clock_skew_seconds as int,
            ),
        ensures
            res == node_certificate_outcome(
                self,
                owner_public_key@,
                expected_community_id@,
                expected_endpoint_public_key@,
                now as int,
                clock_skew_seconds as int,
            ),
    {
        if self.claims.certificate_version != 1 || !str_equal(
            self.claims.endpoint_public_key.as_str(),
            expected_endpoint_public_key,
        ) || !crate::order::contains_str(&self.claims.allowed_roles, "node")
            || self.claims.max_storage_bytes == 0 {
            return Err(IdentityError::Domain);
        }
        if !str_equal(self.claims.community_id.as_str(), expected_community_id) {
            return Err(IdentityError::Community);
        }
        let expected_owner_id = member_id_for(owner_public_key);
        if !str_equal(self.claims.owner_member_id.as_str(), expected_owner_id.as_str()) {
            return Err(IdentityError::Domain);
        }
        if now + clock_skew_seconds < self.claims.issued_at || now - clock_skew_seconds
            > self.claims.expires_at {
            return Err(IdentityError::Time);
        }
        let bytes = self.claims.canonical_bytes();
        verify_signature(owner_public_key, &bytes, self.signature.as_slice())
    }
}

/// A credential that an issuer signs verifies under that issuer's public key,
/// for its community and any time inside its window.
pub proof fn law_issued_membership_verifies(
    claims: MembershipClaims,
    issuer: Identity,
    credential: MembershipCredential,
    now: int,
    skew: int,
)
    requires
        credential.claims == claims,
        credential.signature@.len() == 64,
        ed25519_verifies(ed25519_public_key_of(issuer.seed()), claims.canonical_spec(), credential.signature@),
        claims.credential_version == 1,
        claims.issuer_public_key@ == ed25519_public_key_of(issuer.seed()),
        ed25519_key_decodes(claims.issuer_public_key@),
        within_window(now, skew, claims.issued_at as int, claims.expires_at as int),
    ensures
        membership_outcome(&credential, claims.community_id@, now, skew) == Ok::<
            (),
            IdentityError,
        >(()),
{
}

} // verus!
