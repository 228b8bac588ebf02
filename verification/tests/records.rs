use arcane_mesh::capability::{CapabilityError, CapabilityManifest, OfferingKind, RevenueSplit};
use arcane_mesh::compute::{ComputeError, ExecutionAttestation};
use arcane_mesh::credit::{CreditEntry, CreditError, CreditLedger, CreditReason};
use arcane_mesh::federation::{ExportItem, FederationBundle, FederationError, MigrationReceipt};
use arcane_mesh::grimoire::{GrimoireError, GrimoireRecord};
use arcane_mesh::identity::{
    Identity, IdentityError, MembershipClaims, MembershipCredential, NodeCertificateClaims,
};
use arcane_mesh::legacy::{LegacyAction, LegacyDirective, LegacyError};
use arcane_mesh::memory::MemoryGrant;
use arcane_mesh::research::{ResearchError, ResearchRecord, ResearchRecordKind};
use arcane_mesh::settlement::{
    SettlementError, SettlementInstruction, SettlementReceipt, SettlementStatus,
};
use arcane_mesh::spell::{InvocationRequest, SpellContract, SpellError};

#[test]
fn manifest_is_portable_signed_and_split_exactly() {
    let creator = Identity::from_seed([61; 32]);
    let manifest = CapabilityManifest::issue(
        OfferingKind::CapabilityInvocation,
        "one analysis".to_string(),
        "ab".repeat(32),
        "cd".repeat(32),
        "AUD".to_string(),
        101,
        vec![
            RevenueSplit {
                recipient_id: "storage".into(),
                role: "storage".into(),
                basis_points: 1_000,
            },
            RevenueSplit {
                recipient_id: "creator".into(),
                role: "creator".into(),
                basis_points: 9_000,
            },
        ],
        10,
        30,
        &creator,
    )
    .unwrap();
    manifest.verify().unwrap();
    assert_eq!(
        manifest
            .allocations()
            .unwrap()
            .iter()
            .map(|item| item.1)
            .sum::<u64>(),
        101
    );
}

#[test]
fn money_does_not_create_an_invalid_split() {
    let creator = Identity::from_seed([62; 32]);
    assert!(matches!(
        CapabilityManifest::issue(
            OfferingKind::Query,
            "query".to_string(),
            "ab".repeat(32),
            "cd".repeat(32),
            "AUD".to_string(),
            10,
            vec![RevenueSplit {
                recipient_id: "buyer".into(),
                role: "voter".into(),
                basis_points: 9_999
            }],
            10,
            30,
            &creator
        ),
        Err(CapabilityError::Splits)
    ));
}

#[test]
fn only_approved_measured_runtime_attestations_verify() {
    let executor = Identity::from_seed([71; 32]);
    let measurement = "ab".repeat(32);
    let attestation = ExecutionAttestation::issue(
        "cap_x".to_string(),
        "spl_x".to_string(),
        measurement.clone(),
        vec!["cd".repeat(32)],
        "ef".repeat(32),
        10,
        11,
        &executor,
    )
    .unwrap();
    attestation.verify(&vec![measurement.clone()]).unwrap();
    assert!(matches!(
        attestation.verify(&vec!["00".repeat(32)]),
        Err(ComputeError::Measurement)
    ));
}

#[test]
fn uses_integer_replica_aware_arithmetic_and_expiry() {
    assert_eq!(CreditLedger::monthly_base_grant(), 10_800_000);
    assert_eq!(
        CreditLedger::physical_storage_cost(1024_u64.pow(3), 3, 3600).unwrap(),
        3000
    );
    let mut ledger = CreditLedger::default();
    ledger
        .record(CreditEntry {
            idempotency_key: "grant-1".into(),
            milli_gib_hour: 5000,
            reason: CreditReason::AuditedStorageEarned,
            occurred_at: 10,
            expires_at: Some(20),
        })
        .unwrap();
    assert_eq!(ledger.balance_at(19).unwrap(), 5000);
    assert_eq!(ledger.balance_at(20).unwrap(), 0);
    assert!(matches!(
        ledger.record(CreditEntry {
            idempotency_key: "grant-1".into(),
            milli_gib_hour: 1,
            reason: CreditReason::AuditedStorageEarned,
            occurred_at: 11,
            expires_at: None,
        }),
        Err(CreditError::Duplicate)
    ));
}

#[test]
fn credit_rejects_empty_keys_overflow_and_no_replicas() {
    let mut ledger = CreditLedger::new();
    assert!(matches!(
        ledger.record(CreditEntry {
            idempotency_key: String::new(),
            milli_gib_hour: 1,
            reason: CreditReason::MonthlyBaseGrant,
            occurred_at: 1,
            expires_at: None,
        }),
        Err(CreditError::Invalid)
    ));
    ledger
        .record(CreditEntry {
            idempotency_key: "big".into(),
            milli_gib_hour: i64::MAX,
            reason: CreditReason::MonthlyBaseGrant,
            occurred_at: 1,
            expires_at: None,
        })
        .unwrap();
    assert!(matches!(
        ledger.record(CreditEntry {
            idempotency_key: "more".into(),
            milli_gib_hour: 1,
            reason: CreditReason::MonthlyBaseGrant,
            occurred_at: 2,
            expires_at: None,
        }),
        Err(CreditError::Overflow)
    ));
    assert!(matches!(
        CreditLedger::physical_storage_cost(1, 0, 1),
        Err(CreditError::Invalid)
    ));
    assert_eq!(CreditLedger::physical_storage_cost(1, 1, 1).unwrap(), 1);
    assert_eq!(CreditReason::Expired.name(), "Expired");
}

#[test]
fn requires_time_and_distinct_guardians() {
    let d = LegacyDirective::new(
        "ab".repeat(32),
        LegacyAction::Delete,
        None,
        20,
        2,
        vec!["a".into(), "b".into(), "c".into()],
    )
    .unwrap();
    assert!(matches!(
        d.authorize(19, &["a".into(), "b".into()]),
        Err(LegacyError::TimeLock)
    ));
    assert!(matches!(
        d.authorize(20, &["a".into(), "a".into()]),
        Err(LegacyError::Approvals)
    ));
    d.authorize(20, &["a".into(), "b".into()]).unwrap();
}

#[test]
fn legacy_ignores_approvals_from_strangers() {
    let d = LegacyDirective::new(
        "ab".repeat(32),
        LegacyAction::Delete,
        None,
        20,
        2,
        vec!["a".into(), "b".into()],
    )
    .unwrap();
    assert!(matches!(
        d.authorize(25, &["a".into(), "z".into()]),
        Err(LegacyError::Approvals)
    ));
}

#[test]
fn grants_are_domain_purpose_count_write_and_time_bounded() {
    let grant = MemoryGrant {
        grantee_id: "ai-a".into(),
        domains: vec!["cooking".into()],
        purpose: "meal-plan".into(),
        max_reads: 2,
        writes_allowed: false,
        expires_at: 20,
    };
    grant
        .authorize("cooking", "meal-plan", 0, false, 10)
        .unwrap();
    assert!(grant
        .authorize("health", "meal-plan", 0, false, 10)
        .is_err());
    assert!(grant
        .authorize("cooking", "meal-plan", 0, true, 10)
        .is_err());
}

#[test]
fn memory_grant_expires_and_counts_reads() {
    let grant = MemoryGrant {
        grantee_id: "ai-a".into(),
        domains: vec!["cooking".into()],
        purpose: "meal-plan".into(),
        max_reads: 2,
        writes_allowed: true,
        expires_at: 20,
    };
    assert!(grant.authorize("cooking", "meal-plan", 2, false, 10).is_err());
    assert!(grant.authorize("cooking", "meal-plan", 1, true, 21).is_err());
    assert!(grant.authorize("cooking", "meal-plan", 1, true, 20).is_ok());
}

#[test]
fn signed_causal_records_are_tamper_evident_and_append_only() {
    let researcher = Identity::from_seed([41; 32]);
    let hypothesis = ResearchRecord::issue(
        "project-a".to_string(),
        ResearchRecordKind::Hypothesis,
        vec![],
        "ab".repeat(32),
        10,
        &researcher,
    )
    .unwrap();
    hypothesis.verify().unwrap();

    let correction = ResearchRecord::issue(
        "project-a".to_string(),
        ResearchRecordKind::Correction,
        vec![hypothesis.record_id.clone()],
        "cd".repeat(32),
        20,
        &researcher,
    )
    .unwrap();
    correction.verify().unwrap();
    assert_eq!(correction.parent_ids, vec![hypothesis.record_id]);

    let mut tampered = correction;
    tampered.content_cid = "ef".repeat(32);
    assert!(tampered.verify().is_err());
}

#[test]
fn correction_requires_an_explicit_target() {
    let researcher = Identity::from_seed([42; 32]);
    assert!(matches!(
        ResearchRecord::issue(
            "project-a".to_string(),
            ResearchRecordKind::Retraction,
            vec![],
            "ab".repeat(32),
            10,
            &researcher,
        ),
        Err(ResearchError::MissingTarget)
    ));
}

fn settlement_manifest() -> CapabilityManifest {
    CapabilityManifest::issue(
        OfferingKind::AttestedResult,
        "verified result".to_string(),
        "11".repeat(32),
        "22".repeat(32),
        "AUD".to_string(),
        101,
        vec![
            RevenueSplit {
                recipient_id: "creator".into(),
                role: "creator".into(),
                basis_points: 9_000,
            },
            RevenueSplit {
                recipient_id: "operator".into(),
                role: "compute".into(),
                basis_points: 1_000,
            },
        ],
        10,
        40,
        &Identity::from_seed([91; 32]),
    )
    .unwrap()
}

#[test]
fn instruction_and_receipt_are_exact_idempotent_and_operator_signed() {
    let manifest = settlement_manifest();
    let payer = Identity::from_seed([92; 32]);
    let operator = Identity::from_seed([93; 32]);
    let instruction = SettlementInstruction::issue(
        &manifest,
        format!("exe_{}", "33".repeat(32)),
        "order-2026-00000001".to_string(),
        12,
        30,
        &payer,
    )
    .unwrap();
    instruction.verify(&manifest, 20).unwrap();
    assert_eq!(
        instruction
            .allocations
            .iter()
            .map(|item| item.amount_minor)
            .sum::<u64>(),
        101
    );
    let receipt = SettlementReceipt::issue(
        &instruction,
        "test-signed-rail".to_string(),
        "44".repeat(32),
        SettlementStatus::Settled,
        101,
        21,
        &operator,
    )
    .unwrap();
    receipt
        .verify(&instruction, &[operator.public_key()])
        .unwrap();
    assert!(matches!(
        receipt.verify(&instruction, &[[0; 32]]),
        Err(SettlementError::Operator)
    ));
}

#[test]
fn failed_receipt_cannot_claim_transferred_value() {
    let manifest = settlement_manifest();
    let instruction = SettlementInstruction::issue(
        &manifest,
        format!("exe_{}", "55".repeat(32)),
        "order-2026-00000002".to_string(),
        12,
        30,
        &Identity::from_seed([94; 32]),
    )
    .unwrap();
    assert!(SettlementReceipt::issue(
        &instruction,
        "test-signed-rail".to_string(),
        "66".repeat(32),
        SettlementStatus::Failed,
        1,
        21,
        &Identity::from_seed([95; 32]),
    )
    .is_err());
}

#[test]
fn failed_receipt_with_nothing_moved_is_accepted() {
    let manifest = settlement_manifest();
    let instruction = SettlementInstruction::issue(
        &manifest,
        format!("exe_{}", "77".repeat(32)),
        "order-2026-00000003".to_string(),
        12,
        30,
        &Identity::from_seed([96; 32]),
    )
    .unwrap();
    let operator = Identity::from_seed([97; 32]);
    let receipt = SettlementReceipt::issue(
        &instruction,
        "test-signed-rail".to_string(),
        "88".repeat(32),
        SettlementStatus::Failed,
        0,
        21,
        &operator,
    )
    .unwrap();
    assert_eq!(receipt.amount_minor, 0);
    receipt.verify(&instruction, &[operator.public_key()]).unwrap();
}

fn spell_request<'a>() -> InvocationRequest<'a> {
    InvocationRequest {
        action: "purchase",
        data_scope: "inventory",
        subject_id: "supplier-a",
        amount_minor: 2_500,
        prior_invocations: 0,
        human_approved: true,
        now: 20,
    }
}

#[test]
fn enforces_action_scope_subject_budget_count_approval_and_expiry() {
    let owner = Identity::from_seed([51; 32]);
    let spell = SpellContract::issue(
        "purchase".to_string(),
        vec!["inventory".into()],
        vec!["supplier-a".into()],
        5_000,
        2,
        true,
        false,
        10,
        30,
        &owner,
    )
    .unwrap();
    spell.authorize(&spell_request()).unwrap();

    let mut rejected = spell_request();
    rejected.human_approved = false;
    assert!(matches!(
        spell.authorize(&rejected),
        Err(SpellError::Approval)
    ));
    rejected = spell_request();
    rejected.amount_minor = 5_001;
    assert!(matches!(
        spell.authorize(&rejected),
        Err(SpellError::Budget)
    ));
    rejected = spell_request();
    rejected.prior_invocations = 2;
    assert!(matches!(
        spell.authorize(&rejected),
        Err(SpellError::InvocationLimit)
    ));
}

#[test]
fn tampering_invalidates_the_contract() {
    let owner = Identity::from_seed([52; 32]);
    let mut spell = SpellContract::issue(
        "read".to_string(),
        vec!["recipes".into()],
        vec!["self".into()],
        0,
        1,
        false,
        true,
        10,
        30,
        &owner,
    )
    .unwrap();
    spell.action = "delete".into();
    assert!(spell.verify().is_err());
}

fn credential() -> MembershipCredential {
    let root = Identity::from_seed([1; 32]);
    let member = Identity::from_seed([2; 32]);
    MembershipClaims {
        credential_version: 1,
        community_id: "community-a".into(),
        member_public_key: member.public_key(),
        member_id: member.member_id(),
        roles: vec!["member".into(), "admin".into()],
        issued_at: 100,
        expires_at: 200,
        serial: 1,
        issuer_public_key: root.public_key(),
    }
    .issue(&root)
}

#[test]
fn verifies_scope_time_and_tampering() {
    let valid = credential();
    assert!(valid.verify("community-a", 150, 5).is_ok());
    assert!(matches!(
        valid.verify("community-b", 150, 5),
        Err(IdentityError::Community)
    ));
    assert!(matches!(
        valid.verify("community-a", 300, 5),
        Err(IdentityError::Time)
    ));
    assert!(valid
        .verify_trusted("community-a", &[1; 32], 150, 5)
        .is_err());
    let mut changed = valid;
    changed.claims.roles.push("auditor".into());
    assert!(matches!(
        changed.verify("community-a", 150, 5),
        Err(IdentityError::Signature)
    ));
}

#[test]
fn canonical_role_order_is_stable() {
    let root = Identity::from_seed([1; 32]);
    let member = Identity::from_seed([2; 32]);
    let base = MembershipClaims {
        credential_version: 1,
        community_id: "community-a".into(),
        member_public_key: member.public_key(),
        member_id: member.member_id(),
        roles: vec!["admin".into(), "member".into()],
        issued_at: 100,
        expires_at: 200,
        serial: 1,
        issuer_public_key: root.public_key(),
    };
    let mut reversed = base.clone();
    reversed.roles.reverse();
    assert_eq!(base.canonical_bytes(), reversed.canonical_bytes());
}

#[test]
fn node_certificate_binds_a_separate_endpoint_key_to_its_owner() {
    let owner = Identity::from_seed([9; 32]);
    let certificate = NodeCertificateClaims {
        certificate_version: 1,
        node_id: "node-a".into(),
        community_id: "community-a".into(),
        owner_member_id: owner.member_id(),
        endpoint_public_key: "endpoint-public-key".into(),
        allowed_roles: vec!["node".into()],
        max_storage_bytes: 1024,
        issued_at: 100,
        expires_at: 200,
    }
    .issue(&owner);
    assert!(certificate
        .verify(
            &owner.public_key(),
            "community-a",
            "endpoint-public-key",
            150,
            5
        )
        .is_ok());
    assert!(matches!(
        certificate.verify(&owner.public_key(), "community-a", "other-endpoint", 150, 5),
        Err(IdentityError::Domain)
    ));
}

#[test]
fn member_id_is_the_hex_digest_of_the_public_key() {
    let identity = Identity::from_seed([5; 32]);
    let id = identity.member_id();
    assert!(id.starts_with("mem_"));
    assert_eq!(id.len(), 4 + 64);
    assert_eq!(
        id,
        format!("mem_{}", arcane_mesh::hashing::cid(&identity.public_key()))
    );
    assert_ne!(identity.public_key(), [5; 32]);
}

#[test]
fn full_export_is_signed_tamper_evident_and_receipted_by_target() {
    let owner = Identity::from_seed([101; 32]);
    let target = Identity::from_seed([102; 32]);
    let bundle = FederationBundle::export(
        "community-a".to_string(),
        Some("community-b".into()),
        vec![
            ExportItem {
                category: "memory".into(),
                item_id: "m1".into(),
                content_cid: "11".repeat(32),
            },
            ExportItem {
                category: "identity".into(),
                item_id: "i1".into(),
                content_cid: "22".repeat(32),
            },
        ],
        100,
        &owner,
    )
    .unwrap();
    bundle.verify().unwrap();
    let receipt =
        MigrationReceipt::issue(&bundle, "community-b".to_string(), 101, &target).unwrap();
    receipt.verify(&bundle).unwrap();
}

#[test]
fn federation_sorts_items_and_refuses_other_targets() {
    let owner = Identity::from_seed([103; 32]);
    let bundle = FederationBundle::export(
        "community-a".to_string(),
        Some("community-b".into()),
        vec![
            ExportItem {
                category: "memory".into(),
                item_id: "m1".into(),
                content_cid: "11".repeat(32),
            },
            ExportItem {
                category: "identity".into(),
                item_id: "i1".into(),
                content_cid: "22".repeat(32),
            },
        ],
        100,
        &owner,
    )
    .unwrap();
    assert_eq!(bundle.items[0].category, "identity");
    assert!(bundle.bundle_id.starts_with("exp_"));
    assert!(matches!(
        MigrationReceipt::issue(&bundle, "community-c".to_string(), 101, &owner),
        Err(FederationError::Invalid)
    ));
    let mut tampered = bundle;
    tampered.items[0].item_id = "i2".into();
    assert!(tampered.verify().is_err());
}

#[test]
fn community_knowledge_preserves_reason_exceptions_contributors_and_quorum() {
    let a = Identity::from_seed([91; 32]);
    let b = Identity::from_seed([92; 32]);
    let record = GrimoireRecord::confirm(
        "workshop-a".to_string(),
        "11".repeat(32),
        "22".repeat(32),
        vec!["33".repeat(32)],
        vec!["44".repeat(32)],
        vec!["contributor-b".into(), "contributor-a".into()],
        None,
        2,
        &[&a, &b],
        100,
    )
    .unwrap();
    record.verify().unwrap();
    assert_eq!(record.ratifications.len(), 2);
    assert_eq!(record.contributor_ids[0], "contributor-a");
}

#[test]
fn duplicate_ratifier_cannot_satisfy_quorum() {
    let a = Identity::from_seed([93; 32]);
    assert!(matches!(
        GrimoireRecord::confirm(
            "workshop-a".to_string(),
            "11".repeat(32),
            "22".repeat(32),
            vec![],
            vec![],
            vec!["contributor".into()],
            None,
            2,
            &[&a, &a],
            100,
        ),
        Err(GrimoireError::Ratification)
    ));
}

#[test]
fn grimoire_ratifications_are_in_key_order_and_tamper_evident() {
    let a = Identity::from_seed([94; 32]);
    let b = Identity::from_seed([95; 32]);
    let record = GrimoireRecord::confirm(
        "workshop-a".to_string(),
        "11".repeat(32),
        "22".repeat(32),
        vec![],
        vec![],
        vec!["contributor".into()],
        None,
        1,
        &[&b, &a, &b],
        100,
    )
    .unwrap();
    assert_eq!(record.ratifications.len(), 2);
    assert!(record.ratifications[0].ratifier_public_key < record.ratifications[1].ratifier_public_key);
    assert!(record.record_id.starts_with("gri_"));
    let mut tampered = record;
    tampered.rationale_cid = "33".repeat(32);
    assert!(matches!(tampered.verify(), Err(GrimoireError::Invalid)));
}

#[test]
fn credentials_are_refused_without_overflow_at_the_time_limits() {
    let mut old_version = credential();
    old_version.claims.credential_version = 2;
    assert!(matches!(
        old_version.verify("community-a", i64::MAX, 300),
        Err(IdentityError::Domain)
    ));
    assert!(matches!(
        credential().verify("community-b", i64::MIN, 300),
        Err(IdentityError::Community)
    ));
    assert!(matches!(
        credential().verify("community-a", i64::MIN, 300),
        Err(IdentityError::Time)
    ));
}

#[test]
fn split_sums_are_only_taken_for_well_formed_manifests() {
    let creator = Identity::from_seed([61; 32]);
    let mut manifest = CapabilityManifest::issue(
        OfferingKind::CapabilityInvocation,
        "one analysis".to_string(),
        "ab".repeat(32),
        "cd".repeat(32),
        "AUD".to_string(),
        101,
        vec![RevenueSplit {
            recipient_id: "creator".into(),
            role: "creator".into(),
            basis_points: 10_000,
        }],
        10,
        30,
        &creator,
    )
    .unwrap();
    manifest.title = String::new();
    manifest.splits = (0..70_000)
        .map(|_| RevenueSplit {
            recipient_id: "r".into(),
            role: "x".into(),
            basis_points: u16::MAX,
        })
        .collect();
    assert!(matches!(manifest.verify(), Err(CapabilityError::Invalid)));
    assert!(matches!(manifest.allocations(), Err(CapabilityError::Invalid)));
}
