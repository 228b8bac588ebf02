use arcane_mesh::audit::{
    merkle_root, verify_chain, AuditAnchor, AuditAnchorAdapter, AuditError, AuditEvent, D1Anchor,
    D1AnchorWriter, FutureEvmAnchor, MockAnchor,
};
use arcane_mesh::control::{
    CatalogPointer, Community, CommunitySnapshot, ControlError, LocalControlPlane, Member,
    NodeRecord, ObjectKind, ObjectRecord, Placement, Proposal, Vote, VoteChoice,
};
use arcane_mesh::credit::{CreditEntry, CreditReason, MILLI_PER_GIB_HOUR};
use arcane_mesh::hashing::cid;
use arcane_mesh::identity::{Identity, MembershipClaims};

#[test]
fn chain_and_merkle_are_deterministic_and_tamper_evident() {
    let first = AuditEvent::append(
        None,
        10,
        "community_created".into(),
        "a".into(),
        "c".into(),
    );
    let second = AuditEvent::append(
        Some(&first),
        11,
        "node_registered".into(),
        "a".into(),
        "n".into(),
    );
    let events = vec![first, second];
    verify_chain(&events).unwrap();
    assert_eq!(merkle_root(&events), merkle_root(&events));
    let mut changed = events;
    changed[0].subject_id = "changed".into();
    assert!(verify_chain(&changed).is_err());
}

#[test]
fn audit_chain_numbers_links_and_roots() {
    let first = AuditEvent::append(None, 10, "k".into(), "a".into(), "s".into());
    assert_eq!(first.sequence, 0);
    assert_eq!(first.previous_hash, "0".repeat(64));
    assert_eq!(first.event_hash, first.calculate_hash());
    let second = AuditEvent::append(Some(&first), 11, "k".into(), "a".into(), "s".into());
    assert_eq!(second.sequence, 1);
    assert_eq!(second.previous_hash, first.event_hash);
    let events = vec![first.clone(), second.clone()];
    assert!(matches!(
        verify_chain(&[second.clone()]),
        Err(AuditError::Sequence)
    ));
    let mut relinked = second.clone();
    relinked.previous_hash = "1".repeat(64);
    assert!(matches!(
        verify_chain(&[first.clone(), relinked]),
        Err(AuditError::Chain)
    ));
    assert_eq!(merkle_root(&[]), cid(b"acm.audit.empty.v1"));
    assert_eq!(
        merkle_root(&[first.clone()]),
        cid(first.event_hash.as_bytes())
    );
    let mut joined = Vec::new();
    joined.extend_from_slice(&blake(first.event_hash.as_bytes()));
    joined.extend_from_slice(&blake(second.event_hash.as_bytes()));
    assert_eq!(merkle_root(&events), cid(&joined));
}

fn blake(bytes: &[u8]) -> [u8; 32] {
    *blake3::hash(bytes).as_bytes()
}

fn fixture_anchor() -> AuditAnchor {
    AuditAnchor {
        community_id: "community-a".into(),
        period: "2026-07-26".into(),
        merkle_root: "ab".repeat(32),
        anchored_at: 1_774_742_400,
    }
}

#[derive(Default)]
struct MemoryD1Writer {
    inserted: Vec<AuditAnchor>,
}

impl D1AnchorWriter for MemoryD1Writer {
    fn insert_anchor(&mut self, anchor: &AuditAnchor) -> Result<(), AuditError> {
        self.inserted.push(anchor.clone());
        Ok(())
    }
}

#[test]
fn d1_and_mock_adapters_share_the_validated_boundary() {
    let anchor = fixture_anchor();
    let mut d1 = D1Anchor::new(MemoryD1Writer::default());
    let mut mock = MockAnchor::default();
    d1.anchor(&anchor).unwrap();
    mock.anchor(&anchor).unwrap();
    assert_eq!(d1.kind(), "d1");
    assert_eq!(mock.anchors, vec![anchor]);
}

#[test]
fn mock_anchor_rejects_duplicates_and_invalid_roots() {
    let anchor = fixture_anchor();
    let mut mock = MockAnchor::default();
    mock.anchor(&anchor).unwrap();
    assert_eq!(mock.kind(), "mock");
    assert!(matches!(
        mock.anchor(&anchor),
        Err(AuditError::DuplicateAnchor)
    ));
    let mut bad = fixture_anchor();
    bad.merkle_root = "zz".repeat(32);
    assert!(matches!(bad.validate(), Err(AuditError::InvalidAnchor)));
    let mut d1 = D1Anchor::new(MemoryD1Writer::default());
    assert!(matches!(d1.anchor(&bad), Err(AuditError::InvalidAnchor)));
    assert_eq!(mock.anchors.len(), 1);
}

struct MockFutureEvm;

impl FutureEvmAnchor for MockFutureEvm {
    fn encode_anchor_call(&self, anchor: &AuditAnchor) -> Result<Vec<u8>, AuditError> {
        anchor.validate()?;
        Ok(anchor.merkle_root.as_bytes().to_vec())
    }
}

#[test]
fn future_evm_is_encoding_only_without_network_or_keys() {
    let encoded = MockFutureEvm
        .encode_anchor_call(&fixture_anchor())
        .unwrap();
    assert_eq!(encoded, "ab".repeat(32).as_bytes());
}

fn member(root: &Identity, identity: &Identity, serial: u64, roles: &[&str]) -> Member {
    let claims = MembershipClaims {
        credential_version: 1,
        community_id: "community".into(),
        member_public_key: identity.public_key(),
        member_id: identity.member_id(),
        roles: roles.iter().map(|role| (*role).into()).collect(),
        issued_at: 100,
        expires_at: 1000,
        serial,
        issuer_public_key: root.public_key(),
    };
    Member {
        member_id: identity.member_id(),
        public_key: identity.public_key(),
        roles: claims.roles.clone(),
        status: "active".into(),
        credential: claims.issue(root),
    }
}

fn control() -> (LocalControlPlane, Identity, Identity) {
    let root = Identity::from_seed([1; 32]);
    let founder = Identity::from_seed([2; 32]);
    let community = Community {
        community_id: "community".into(),
        name: "Test Commons".into(),
        root_public_key: root.public_key(),
        created_at: 100,
        policy_version: 1,
        status: "active".into(),
    };
    (
        LocalControlPlane::bootstrap(community, member(&root, &founder, 1, &["member", "admin"]))
            .unwrap(),
        root,
        founder,
    )
}

#[test]
fn challenges_are_single_use_and_nonce_replay_is_rejected() {
    let (mut control, _, _) = control();
    let challenge = control.issue_challenge(100);
    control
        .consume_challenge(&challenge, "nonce-0000000001", 101)
        .unwrap();
    assert!(matches!(
        control.consume_challenge(&challenge, "nonce-0000000002", 102),
        Err(ControlError::Replay)
    ));
}

#[test]
fn challenges_expire_and_nonces_are_spent_once() {
    let (mut control, _, _) = control();
    let challenge = control.issue_challenge(100);
    assert_eq!(challenge.len(), 64);
    assert!(matches!(
        control.consume_challenge(&challenge, "short", 101),
        Err(ControlError::Replay)
    ));
    assert!(matches!(
        control.consume_challenge(&challenge, "nonce-0000000003", 401),
        Err(ControlError::Replay)
    ));
    assert!(matches!(
        control.consume_challenge(&challenge, "nonce-0000000003", 101),
        Err(ControlError::Replay)
    ));
    control
        .consume_challenge(&challenge, "nonce-0000000004", 400)
        .unwrap();
}

#[test]
fn rejects_self_issued_membership_for_an_existing_community() {
    let (mut control, _, _) = control();
    let attacker = Identity::from_seed([8; 32]);
    let forged = member(&attacker, &attacker, 99, &["member", "admin"]);
    assert!(matches!(
        control.add_member(forged, 150),
        Err(ControlError::InvalidSignature)
    ));
}

#[test]
fn catalog_rejects_rollback_and_fork() {
    let (mut control, _, founder) = control();
    let mut first = CatalogPointer {
        vault_id: "vault".into(),
        catalog_cid: "a".repeat(64),
        version: 1,
        previous_cid: None,
        signed_at: 110,
        owner_signature: Vec::new(),
    };
    first.owner_signature = founder.sign(&first.signing_bytes()).to_vec();
    control
        .update_catalog_pointer(&founder.member_id(), first)
        .unwrap();
    let mut tampered = CatalogPointer {
        vault_id: "vault".into(),
        catalog_cid: "b".repeat(64),
        version: 2,
        previous_cid: Some("a".repeat(64)),
        signed_at: 111,
        owner_signature: vec![0; 64],
    };
    assert!(matches!(
        control.update_catalog_pointer(&founder.member_id(), tampered.clone()),
        Err(ControlError::InvalidSignature)
    ));
    tampered.owner_signature = founder.sign(&tampered.signing_bytes()).to_vec();
    control
        .update_catalog_pointer(&founder.member_id(), tampered)
        .unwrap();
    let mut fork = CatalogPointer {
        vault_id: "vault".into(),
        catalog_cid: "c".repeat(64),
        version: 2,
        previous_cid: Some("a".repeat(64)),
        signed_at: 112,
        owner_signature: Vec::new(),
    };
    fork.owner_signature = founder.sign(&fork.signing_bytes()).to_vec();
    assert!(matches!(
        control.update_catalog_pointer(&founder.member_id(), fork),
        Err(ControlError::State)
    ));
}

#[test]
fn catalog_pointer_signing_bytes_are_the_documented_text() {
    let pointer = CatalogPointer {
        vault_id: "v".into(),
        catalog_cid: "c".into(),
        version: 7,
        previous_cid: None,
        signed_at: -3,
        owner_signature: Vec::new(),
    };
    assert_eq!(pointer.signing_bytes(), b"acm.catalog-pointer.v1|v|c|7||-3".to_vec());
    let vote = Vote {
        proposal_id: "p".into(),
        member_id: "m".into(),
        choice: VoteChoice::Abstain,
        cast_at: 5,
        member_signature: Vec::new(),
    };
    assert_eq!(vote.signing_bytes(), b"acm.vote.v1|p|m|Abstain|5".to_vec());
}

#[test]
fn duplicate_vote_updates_one_person_one_vote_and_keeps_history() {
    let (mut control, root, founder) = control();
    let bob = Identity::from_seed([3; 32]);
    control
        .add_member(member(&root, &bob, 2, &["member"]), 150)
        .unwrap();
    control
        .create_proposal(
            Proposal {
                proposal_id: "proposal".into(),
                title: "Policy".into(),
                body: "Test policy".into(),
                created_by_member_id: founder.member_id(),
                opens_at: 160,
                closes_at: 300,
                quorum_percent: 20,
                threshold_percent: 50,
            },
            150,
        )
        .unwrap();
    for (choice, time) in [(VoteChoice::Yes, 170), (VoteChoice::No, 180)] {
        let mut vote = Vote {
            proposal_id: "proposal".into(),
            member_id: bob.member_id(),
            choice,
            cast_at: time,
            member_signature: Vec::new(),
        };
        vote.member_signature = bob.sign(&vote.signing_bytes()).to_vec();
        control.cast_vote(vote).unwrap();
    }
    let result = control.vote_result("proposal").unwrap();
    assert_eq!((result.yes, result.no, result.abstain), (0, 1, 0));
    assert_eq!(result.eligible_members, 2);
    assert_eq!(control.vote_history_len(), 2);
}

#[test]
fn votes_outside_the_window_or_unknown_proposals_are_refused() {
    let (mut control, _, founder) = control();
    control
        .create_proposal(
            Proposal {
                proposal_id: "proposal".into(),
                title: "Policy".into(),
                body: "Test policy".into(),
                created_by_member_id: founder.member_id(),
                opens_at: 160,
                closes_at: 300,
                quorum_percent: 20,
                threshold_percent: 50,
            },
            150,
        )
        .unwrap();
    let mut late = Vote {
        proposal_id: "proposal".into(),
        member_id: founder.member_id(),
        choice: VoteChoice::Yes,
        cast_at: 301,
        member_signature: Vec::new(),
    };
    late.member_signature = founder.sign(&late.signing_bytes()).to_vec();
    assert!(matches!(control.cast_vote(late), Err(ControlError::State)));
    assert!(matches!(
        control.vote_result("missing"),
        Err(ControlError::NotFound)
    ));
    assert_eq!(control.vote_history_len(), 0);
}

#[test]
fn nodes_objects_and_placements_follow_the_registry_rules() {
    let (mut control, _, founder) = control();
    let actor = founder.member_id();
    let node = NodeRecord {
        node_id: "node-a".into(),
        owner_member_id: actor.clone(),
        failure_domain: "domain-a".into(),
        region: "local".into(),
        max_storage_bytes: 1024,
        used_storage_bytes: 0,
        last_heartbeat_at: 100,
        status: "active".into(),
    };
    control.register_node(&actor, node.clone(), 120).unwrap();
    assert!(matches!(
        control.register_node(&actor, node, 121),
        Err(ControlError::State)
    ));
    assert!(matches!(
        control.register_node(&"mem_unknown".to_string(), NodeRecord {
            node_id: "node-b".into(),
            owner_member_id: "mem_unknown".into(),
            failure_domain: "domain-b".into(),
            region: "local".into(),
            max_storage_bytes: 1024,
            used_storage_bytes: 0,
            last_heartbeat_at: 100,
            status: "active".into(),
        }, 121),
        Err(ControlError::Unauthorized)
    ));
    let object = ObjectRecord {
        object_cid: "ab".repeat(32),
        ciphertext_size: 10,
        object_kind: ObjectKind::DataChunk,
        replica_target: 3,
        created_at: 120,
    };
    control.register_object(&actor, object, 122).unwrap();
    assert!(matches!(
        control.register_object(
            &actor,
            ObjectRecord {
                object_cid: "not-a-cid".into(),
                ciphertext_size: 10,
                object_kind: ObjectKind::DataChunk,
                replica_target: 3,
                created_at: 120,
            },
            122
        ),
        Err(ControlError::State)
    ));
    let placement = Placement {
        placement_id: "p1".into(),
        object_cid: "ab".repeat(32),
        node_id: "node-a".into(),
        status: "healthy".into(),
        created_at: 123,
    };
    control.add_placement(&actor, placement, 123).unwrap();
    assert!(matches!(
        control.add_placement(
            &actor,
            Placement {
                placement_id: "p2".into(),
                object_cid: "ab".repeat(32),
                node_id: "node-a".into(),
                status: "healthy".into(),
                created_at: 124,
            },
            124
        ),
        Err(ControlError::State)
    ));
    let events = control.audit_events();
    assert_eq!(events.len(), 4);
    assert_eq!(events[3].kind, "placement_created");
    verify_chain(events).unwrap();
}

#[test]
fn credit_has_no_transfer_and_snapshot_is_tamper_evident() {
    let (mut control, _, founder) = control();
    control
        .record_credit(
            &founder.member_id(),
            CreditEntry {
                idempotency_key: "base-2026-07".into(),
                milli_gib_hour: 100 * MILLI_PER_GIB_HOUR,
                reason: CreditReason::MonthlyBaseGrant,
                occurred_at: 120,
                expires_at: Some(200),
            },
        )
        .unwrap();
    assert_eq!(
        control.credit_balance(&founder.member_id(), 150).unwrap(),
        100_000
    );
    assert_eq!(
        control.audit_events().last().unwrap().subject_id,
        "MonthlyBaseGrant"
    );
    let mut snapshot = CommunitySnapshot {
        format_version: 1,
        community: control.community().clone(),
        members: control.members().to_vec(),
        nodes: control.nodes().to_vec(),
        catalog_pointers: control.catalog_pointers().to_vec(),
        audit_events: control.audit_events().to_vec(),
        audit_root: control.snapshot_audit_root().unwrap(),
        snapshot_hash: String::new(),
    };
    let canonical = format!("{:?}", snapshot).into_bytes();
    snapshot.snapshot_hash = cid(&canonical);
    LocalControlPlane::verify_snapshot(&snapshot, &canonical).unwrap();
    let mut changed = canonical;
    let index = changed.len() - 2;
    changed[index] ^= 1;
    assert!(matches!(
        LocalControlPlane::verify_snapshot(&snapshot, &changed),
        Err(ControlError::Snapshot)
    ));
}

#[test]
fn bootstrap_refuses_a_foreign_issuer_at_the_time_limit() {
    let root = Identity::from_seed([1; 32]);
    let stranger = Identity::from_seed([9; 32]);
    let founder = Identity::from_seed([2; 32]);
    let community = Community {
        community_id: "community".into(),
        name: "Test Commons".into(),
        root_public_key: root.public_key(),
        created_at: i64::MAX,
        policy_version: 1,
        status: "active".into(),
    };
    assert!(matches!(
        LocalControlPlane::bootstrap(community, member(&stranger, &founder, 1, &["member"])),
        Err(ControlError::InvalidSignature)
    ));
}
