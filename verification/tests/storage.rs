use arcane_mesh::catalog::{
    catalog_aad, check_manifest, encrypt_manifest, open_catalog, open_manifest,
    push_manifest_json, push_signed_catalog_json, sign_and_encrypt_catalog, catalog_signing_bytes,
    restored_matches, verify_signed_catalog, CatalogError, CatalogFileVersion, FileManifest, SignedVaultCatalog,
    VaultCatalog, CATALOG_KEY_CONTEXT,
};
use arcane_mesh::crypto::{decrypt, encrypt, push_envelope_json, seal_with_nonce, CryptoError, SecretKey};
use arcane_mesh::hashing::{cid, plaintext_hash, FileHasher};
use arcane_mesh::identity::Identity;
use arcane_mesh::mesh::{
    find_node, placements_of, record_audits, repair_plan, replication_plan, restore_candidates,
    NodeView, Placement,
};
use arcane_mesh::node::{
    check_node_put, check_online, parse_ipc_name, plan_request, reply_for, repair_binding_ok,
    wire_response, ActionOutcome, IpcRequest, NodeAction, NodeError,
};
use arcane_mesh::protocol::{Operation, ProtocolError, Request, MAX_FRAME_BYTES, MAX_OBJECT_BYTES};
use arcane_mesh::recovery::{
    export, open_recovery, open_recovery_with_key, push_payload_json, seal_recovery,
    seal_recovery_with_key, RecoveryError, DEFAULT_MEMORY_KIB, RecoveryPayload,
    RecoveryVaultPointer,
};
use arcane_mesh::store::{check_put, check_read, object_location, StoreError};
use arcane_mesh::vault::{
    decrypt_stream, encrypt_stream, open_chunk, open_chunk_digested, seal_chunk, seal_chunk_digested,
    VaultError,
};
use arcane_mesh::vault_ops::{
    add_file_version, chain_step, drop_expired, latest_in_chain, not_retained, restore_version,
    tombstone, CatalogCandidate, DATA_REPLICAS, METADATA_REPLICAS, RETENTION_SECONDS,
};
use arcane_mesh::DEFAULT_CHUNK_SIZE;

#[test]
fn round_trip_and_nonce_uniqueness() {
    let key = SecretKey::random();
    let first = encrypt(&key, b"private payload", b"acm.chunk.v1").unwrap();
    let second = encrypt(&key, b"private payload", b"acm.chunk.v1").unwrap();
    assert_ne!(first.nonce, second.nonce);
    assert_eq!(
        decrypt(&key, &first, b"acm.chunk.v1").unwrap(),
        b"private payload"
    );
}

#[test]
fn rejects_wrong_key_ciphertext_and_aad() {
    let key = SecretKey::random();
    let envelope = encrypt(&key, b"payload", b"correct").unwrap();
    assert!(decrypt(&SecretKey::random(), &envelope, b"correct").is_err());
    assert!(decrypt(&key, &envelope, b"wrong").is_err());

    let mut modified = envelope;
    modified.ciphertext[0] ^= 1;
    assert!(decrypt(&key, &modified, b"correct").is_err());
}

#[test]
fn envelopes_of_other_versions_are_refused_and_tags_are_appended() {
    let key = SecretKey([4; 32]);
    let envelope = seal_with_nonce(&key, &[9; 24], b"abc", b"aad").unwrap();
    assert_eq!(envelope.ciphertext.len(), 3 + 16);
    assert_eq!(envelope.algorithm, "XChaCha20-Poly1305");
    let mut other = envelope.clone();
    other.version = 2;
    assert!(matches!(decrypt(&key, &other, b"aad"), Err(CryptoError::Version)));
    let mut json = Vec::new();
    push_envelope_json(&mut json, &envelope);
    let value: serde_json::Value = serde_json::from_slice(&json).unwrap();
    assert_eq!(value["version"], 1);
    assert_eq!(value["algorithm"], "XChaCha20-Poly1305");
    assert_eq!(value["nonce"].as_array().unwrap().len(), 24);
    assert_eq!(value["ciphertext"].as_array().unwrap().len(), 19);
    assert_eq!(key.derive("a").0, blake3::derive_key("a", &[4; 32]));
}

fn manifest() -> FileManifest {
    FileManifest {
        manifest_version: 1,
        file_id: "file-a".into(),
        file_version_id: "file-a-v1".into(),
        relative_path: "private".into(),
        file_name: "secret.txt".into(),
        mime_type: "text/plain".into(),
        plaintext_size: 6,
        plaintext_hash: "a".repeat(64),
        modified_at: 100,
        created_at: 100,
        file_key: [7; 32],
        ordered_chunk_cids: vec!["b".repeat(64)],
        chunk_plaintext_lengths: vec![6],
        padding_lengths: vec![0],
    }
}

#[test]
fn encrypts_manifest_metadata_and_binds_its_identity() {
    let master = SecretKey::random();
    let manifest = manifest();
    let envelope = encrypt_manifest(&master, "vault-a", &manifest).unwrap();
    let mut encoded = Vec::new();
    push_envelope_json(&mut encoded, &envelope);
    assert!(!encoded
        .windows(manifest.file_name.len())
        .any(|window| window == manifest.file_name.as_bytes()));
    let mut expected = Vec::new();
    push_manifest_json(&mut expected, &manifest);
    assert_eq!(
        open_manifest(&master, "vault-a", "file-a", "file-a-v1", &envelope).unwrap(),
        expected
    );
    check_manifest(&manifest, "file-a", "file-a-v1").unwrap();
    assert!(open_manifest(&master, "vault-b", "file-a", "file-a-v1", &envelope).is_err());
    assert!(matches!(
        check_manifest(&manifest, "file-b", "file-a-v1"),
        Err(CatalogError::Domain)
    ));
}

#[test]
fn manifest_json_is_the_serde_form() {
    let mut json = Vec::new();
    push_manifest_json(&mut json, &manifest());
    let value: serde_json::Value = serde_json::from_slice(&json).unwrap();
    assert_eq!(value["manifest_version"], 1);
    assert_eq!(value["file_name"], "secret.txt");
    assert_eq!(value["plaintext_size"], 6);
    assert_eq!(value["file_key"].as_array().unwrap().len(), 32);
    assert_eq!(value["chunk_plaintext_lengths"][0], 6);
    assert_eq!(value["padding_lengths"][0], 0);
    let text = String::from_utf8(json).unwrap();
    assert!(text.starts_with("{\"manifest_version\":1,\"file_id\":\"file-a\","));
    assert!(text.ends_with("\"padding_lengths\":[0]}"));
    let mut bad = manifest();
    bad.padding_lengths.clear();
    assert!(matches!(
        encrypt_manifest(&SecretKey([1; 32]), "vault-a", &bad),
        Err(CatalogError::Domain)
    ));
}

fn catalog(owner: &Identity) -> VaultCatalog {
    VaultCatalog {
        catalog_version: 1,
        vault_id: "vault-a".into(),
        owner_member_id: owner.member_id(),
        previous_catalog_cid: None,
        created_at: 100,
        files: vec![CatalogFileVersion {
            file_id: "file-a".into(),
            file_version_id: "file-a-v1".into(),
            encrypted_manifest_cid: "c".repeat(64),
            created_at: 100,
            deleted_at: None,
            retention_until: None,
        }],
    }
}

#[test]
fn catalog_is_encrypted_signed_and_tamper_evident() {
    let master = SecretKey::random();
    let owner = Identity::from_seed([3; 32]);
    let catalog = catalog(&owner);
    let envelope = sign_and_encrypt_catalog(&master, &owner, catalog.clone()).unwrap();
    let opened = open_catalog(&master, "vault-a", 1, &envelope).unwrap();
    let decoded = SignedVaultCatalog {
        catalog: catalog.clone(),
        owner_public_key: owner.public_key(),
        owner_signature: owner.sign(&catalog_signing_bytes(&catalog)).to_vec(),
    };
    let mut expected = Vec::new();
    push_signed_catalog_json(&mut expected, &decoded);
    assert_eq!(opened, expected);
    verify_signed_catalog(&decoded, "vault-a", 1, &owner.public_key()).unwrap();
    assert_eq!(decoded.catalog, catalog);
    let mut tampered = decoded;
    tampered.catalog.created_at += 1;
    let key = master.derive(CATALOG_KEY_CONTEXT);
    let mut plaintext = Vec::new();
    push_signed_catalog_json(&mut plaintext, &tampered);
    let forged = encrypt(&key, &plaintext, &catalog_aad("vault-a", 1)).unwrap();
    assert_eq!(open_catalog(&master, "vault-a", 1, &forged).unwrap(), plaintext);
    assert!(matches!(
        verify_signed_catalog(&tampered, "vault-a", 1, &owner.public_key()),
        Err(CatalogError::Signature)
    ));
    assert!(open_catalog(&master, "vault-a", 2, &envelope).is_err());
    assert!(matches!(
        verify_signed_catalog(&tampered, "vault-a", 2, &owner.public_key()),
        Err(CatalogError::Domain)
    ));
}

#[test]
fn catalog_must_be_signed_by_its_owner() {
    let owner = Identity::from_seed([3; 32]);
    let other = Identity::from_seed([4; 32]);
    assert!(matches!(
        sign_and_encrypt_catalog(&SecretKey([1; 32]), &other, catalog(&owner)),
        Err(CatalogError::Domain)
    ));
    let mut zero = catalog(&owner);
    zero.catalog_version = 0;
    assert!(matches!(
        sign_and_encrypt_catalog(&SecretKey([1; 32]), &owner, zero),
        Err(CatalogError::Domain)
    ));
}

fn fixture() -> RecoveryPayload {
    RecoveryPayload {
        identity_seed: [7; 32],
        vault_master_key: [9; 32],
        community_ids: vec!["community-test".into()],
        control_plane_urls: vec!["http://127.0.0.1:8787".into()],
        vaults: vec![RecoveryVaultPointer {
            vault_id: "vault-test".into(),
            catalog_cid: "b3:test".into(),
            catalog_version: 7,
            owner_public_key: [3; 32],
        }],
    }
}

// An Argon2id stretch at the default cost takes seconds, so each test below
// stretches a passphrase once and reuses the key where it can.
#[test]
fn recovery_round_trip_and_rejections() {
    let salt = [5u8; 16];
    let key = arcane_mesh::recovery::derive(
        b"correct horse battery staple",
        &salt,
        DEFAULT_MEMORY_KIB,
        3,
        1,
    )
    .unwrap();
    let file = seal_recovery_with_key(&fixture(), &key, salt).unwrap();
    let decoded = open_recovery_with_key(&file, &key).unwrap();
    let mut expected = Vec::new();
    push_payload_json(&mut expected, &fixture());
    assert_eq!(decoded, expected);
    let value: serde_json::Value = serde_json::from_slice(&decoded).unwrap();
    assert_eq!(value["identity_seed"][0], 7);
    assert_eq!(value["vaults"][0]["catalog_version"], 7);

    let mut corrupt = file;
    let index = corrupt.envelope.ciphertext.len() - 2;
    corrupt.envelope.ciphertext[index] ^= 1;
    assert!(open_recovery_with_key(&corrupt, &key).is_err());
}

#[test]
fn recovery_rejects_wrong_passphrase() {
    let file = seal_recovery_with_key(&fixture(), &SecretKey([1; 32]), [5; 16]).unwrap();
    assert!(matches!(
        open_recovery(&file, b"wrong passphrase"),
        Err(RecoveryError::Crypto(CryptoError::Authenticate))
    ));
}

#[test]
fn rejects_malicious_kdf_parameters_before_allocation() {
    let mut file = seal_recovery(&fixture(), b"passphrase long enough").unwrap();
    file.memory_kib = u32::MAX;
    assert!(matches!(
        open_recovery(&file, b"passphrase long enough"),
        Err(RecoveryError::Parameters)
    ));
    assert!(matches!(
        arcane_mesh::recovery::derive(b"x", &[0; 16], 1024, 3, 1),
        Err(RecoveryError::Parameters)
    ));
    assert!(matches!(
        arcane_mesh::recovery::derive(b"x", &[0; 16], 65536, 11, 1),
        Err(RecoveryError::Parameters)
    ));
    let mut renamed = file;
    renamed.algorithm = "other".into();
    assert!(matches!(
        open_recovery(&renamed, b"passphrase long enough"),
        Err(RecoveryError::Invalid)
    ));
}

#[test]
fn streams_across_boundaries_and_rejects_reordering() {
    for size in [
        0,
        1,
        64 * 1024,
        DEFAULT_CHUNK_SIZE - 1,
        DEFAULT_CHUNK_SIZE,
        DEFAULT_CHUNK_SIZE + 1,
    ] {
        let input = vec![42_u8; size];
        let key = SecretKey::random();
        let chunks = encrypt_stream(&input, &key, "vault", "file-v1").unwrap();
        let output = decrypt_stream(&chunks, &key, "vault", "file-v1").unwrap();
        assert_eq!(output, input);
    }

    let key = SecretKey::random();
    let mut chunks =
        encrypt_stream(&vec![1_u8; DEFAULT_CHUNK_SIZE + 1], &key, "vault", "file-v1").unwrap();
    chunks.swap(0, 1);
    assert!(matches!(
        decrypt_stream(&chunks, &key, "vault", "file-v1"),
        Err(VaultError::Integrity)
    ));
}

#[test]
fn stream_pieces_cover_the_plaintext_in_order() {
    let key = SecretKey([5; 32]);
    let counts: Vec<usize> = [0, 1, DEFAULT_CHUNK_SIZE, DEFAULT_CHUNK_SIZE + 1]
        .into_iter()
        .map(|size| {
            encrypt_stream(&vec![7_u8; size], &key, "vault", "file-v1")
                .unwrap()
                .len()
        })
        .collect();
    assert_eq!(counts, vec![0, 1, 1, 2]);
    let chunks =
        encrypt_stream(&vec![7_u8; DEFAULT_CHUNK_SIZE + 3], &key, "vault", "file-v1").unwrap();
    assert_eq!(chunks[0].index, 0);
    assert_eq!(chunks[1].index, 1);
    assert_eq!(chunks[0].plaintext_length as usize, DEFAULT_CHUNK_SIZE);
    assert_eq!(chunks[1].plaintext_length, 3);
    assert!(matches!(
        decrypt_stream(&chunks, &SecretKey([6; 32]), "vault", "file-v1"),
        Err(VaultError::Crypto(CryptoError::Authenticate))
    ));
    assert!(matches!(
        decrypt_stream(&chunks[1..], &key, "vault", "file-v1"),
        Err(VaultError::Integrity)
    ));
}

#[test]
fn chunks_are_named_by_their_envelope_and_bound_to_their_file() {
    let key = SecretKey([2; 32]);
    let chunk = seal_chunk(&key, b"hello", "vault", "file-v1", 0).unwrap();
    let mut json = Vec::new();
    push_envelope_json(&mut json, &chunk.envelope);
    assert_eq!(chunk.cid, cid(&json));
    assert_eq!(chunk.plaintext_length, 5);
    assert!(matches!(
        open_chunk(&chunk, 0, &key, "vault", "file-v2"),
        Err(VaultError::Crypto(CryptoError::Authenticate))
    ));
    let mut renamed = chunk.clone();
    renamed.cid = "00".repeat(32);
    assert!(matches!(
        open_chunk(&renamed, 0, &key, "vault", "file-v1"),
        Err(VaultError::Integrity)
    ));
}

#[test]
fn rejects_path_traversal_as_cid() {
    assert!(matches!(
        object_location("../../secret"),
        Err(StoreError::InvalidCid)
    ));
    let object_cid = cid(b"opaque ciphertext");
    let (directory, file) = object_location(&object_cid).unwrap();
    assert_eq!(directory, object_cid[..2]);
    assert_eq!(file, format!("{object_cid}.blob"));
}

#[test]
fn store_checks_identifier_and_quota() {
    let bytes = b"opaque ciphertext";
    let object_cid = cid(bytes);
    check_put(&object_cid, bytes, 64).unwrap();
    assert!(matches!(
        check_put(&object_cid, b"tampered", 64),
        Err(StoreError::CidMismatch)
    ));
    assert!(matches!(
        check_put(&cid(&[0; 65]), &[0; 65], 64),
        Err(StoreError::Quota)
    ));
    check_read(&object_cid, bytes).unwrap();
    assert!(matches!(
        check_read(&object_cid, b"tampered"),
        Err(StoreError::CidMismatch)
    ));
}

#[test]
fn offline_node_refuses_operations() {
    let bytes = b"ciphertext";
    let object_cid = cid(bytes);
    check_node_put(true, &object_cid, bytes, 1024).unwrap();
    assert!(matches!(
        check_node_put(false, &object_cid, bytes, 1024),
        Err(NodeError::Offline)
    ));
    assert!(matches!(check_online(false), Err(NodeError::Offline)));
    check_online(true).unwrap();
    assert!(matches!(
        check_node_put(true, &object_cid, &vec![0; MAX_OBJECT_BYTES + 1], u64::MAX),
        Err(NodeError::Oversized)
    ));
}

#[test]
fn node_requests_are_planned_and_answered() {
    let payload = b"encrypted-object".to_vec();
    let object_cid = cid(&payload);
    assert!(matches!(
        plan_request(Operation::PutObject, &Some(object_cid.clone()), &payload),
        NodeAction::Store(c) if c == object_cid
    ));
    assert!(matches!(
        plan_request(Operation::PutObject, &Some("00".repeat(32)), &payload),
        NodeAction::Reply(false, Some(code), _) if code == "storage_rejected"
    ));
    assert!(matches!(
        plan_request(Operation::HasObject, &None, &payload),
        NodeAction::Reply(true, None, ref bytes) if bytes == b"false"
    ));
    assert!(matches!(
        plan_request(Operation::Ping, &None, &payload),
        NodeAction::Reply(true, None, ref bytes) if bytes.is_empty()
    ));
    let (ok, code, bytes) = reply_for(ActionOutcome::Audited(true));
    assert!(ok && code.is_none() && bytes == b"true");
    let (ok, code, _) = reply_for(ActionOutcome::Deleted(false));
    assert!(!ok && code.as_deref() == Some("not_found"));
    let response = wire_response("request-1".into(), true, None, payload.clone());
    assert_eq!(response.payload_cid, object_cid);
    assert_eq!(response.protocol_version, 1);
}

#[test]
fn ipc_names_select_the_request() {
    assert!(matches!(parse_ipc_name("put-abc.blob"), IpcRequest::Put(c) if c == "abc"));
    assert!(matches!(parse_ipc_name("get-abc.req"), IpcRequest::Get(c) if c == "abc"));
    assert!(matches!(parse_ipc_name("repair-1.json"), IpcRequest::Repair));
    assert!(matches!(parse_ipc_name(".partial"), IpcRequest::Ignore));
    assert!(matches!(parse_ipc_name("other.txt"), IpcRequest::Discard));
    assert!(matches!(parse_ipc_name("put-.blob"), IpcRequest::Put(c) if c.is_empty()));
    assert!(repair_binding_ok("task-000000000001", "challenge-00000001"));
    assert!(!repair_binding_ok("task", "challenge-00000001"));
}

fn view(id: &str, domain: &str, active: bool) -> NodeView {
    NodeView {
        node_id: id.into(),
        failure_domain: domain.into(),
        active,
    }
}

#[test]
fn requires_independent_failure_domains() {
    let nodes = vec![view("a", "same", true), view("b", "same", true)];
    let (chosen, complete) = replication_plan(&nodes, 2);
    assert_eq!(chosen, vec![0]);
    assert!(!complete);
}

#[test]
fn replication_skips_offline_nodes_and_stops_at_the_target() {
    let nodes = vec![
        view("a", "domain-a", true),
        view("b", "domain-b", false),
        view("c", "domain-c", true),
        view("d", "domain-d", true),
    ];
    let (chosen, complete) = replication_plan(&nodes, 2);
    assert_eq!(chosen, vec![0, 2]);
    assert!(complete);
    let (all, never) = replication_plan(&nodes, 0);
    assert_eq!(all, vec![0, 2, 3]);
    assert!(!never);
    let placements = vec![
        Placement {
            object_cid: "x".into(),
            node_id: "a".into(),
            failure_domain: "domain-a".into(),
            healthy: true,
        },
        Placement {
            object_cid: "x".into(),
            node_id: "c".into(),
            failure_domain: "domain-c".into(),
            healthy: false,
        },
        Placement {
            object_cid: "y".into(),
            node_id: "d".into(),
            failure_domain: "domain-d".into(),
            healthy: true,
        },
    ];
    assert_eq!(restore_candidates(&placements, "x"), vec![0]);
    assert_eq!(find_node(&nodes, "c"), Some(2));
    assert_eq!(find_node(&nodes, "z"), None);
    let (added, count) = repair_plan(&nodes, &placements, "x", 3);
    assert_eq!(added, vec![2, 3]);
    assert_eq!(count, 3);
}

#[test]
fn catalog_versions_tombstones_and_collection() {
    let owner = Identity::from_seed([3; 32]);
    let mut catalog = catalog(&owner);
    add_file_version(
        &mut catalog,
        CatalogFileVersion {
            file_id: "file-b".into(),
            file_version_id: "file-b-v1".into(),
            encrypted_manifest_cid: "d".repeat(64),
            created_at: 110,
            deleted_at: None,
            retention_until: None,
        },
        "e".repeat(64),
        110,
    );
    assert_eq!(catalog.catalog_version, 2);
    assert_eq!(catalog.previous_catalog_cid, Some("e".repeat(64)));
    assert_eq!(catalog.files.len(), 2);
    assert!(tombstone(&mut catalog, "file-a", "f".repeat(64), 200));
    assert_eq!(catalog.catalog_version, 3);
    assert_eq!(catalog.files[0].deleted_at, Some(200));
    assert_eq!(catalog.files[0].retention_until, Some(200 + RETENTION_SECONDS));
    assert!(!tombstone(&mut catalog, "file-a", "g".repeat(64), 201));
    assert_eq!(catalog.catalog_version, 3);
    assert_eq!(restore_version(&catalog.files, "file-a", 300), Some(0));
    assert_eq!(
        restore_version(&catalog.files, "file-a", 200 + RETENTION_SECONDS + 1),
        None
    );
    assert_eq!(restore_version(&catalog.files, "file-b", 300), Some(1));
    let mut files = catalog.files.clone();
    assert!(!drop_expired(&mut files, 200 + RETENTION_SECONDS));
    assert!(drop_expired(&mut files, 200 + RETENTION_SECONDS + 1));
    assert_eq!(files.len(), 1);
    assert_eq!(files[0].file_id, "file-b");
}

#[test]
fn catalog_chains_are_followed_both_ways() {
    assert_eq!(chain_step(3, &Some("b".into())), Ok(Some(("b".to_string(), 2))));
    assert_eq!(chain_step(1, &Some("b".into())), Err(()));
    assert_eq!(chain_step(1, &None), Ok(None));
    let candidates = vec![
        CatalogCandidate {
            version: 2,
            cid: "c2".into(),
            previous: Some("c1".into()),
        },
        CatalogCandidate {
            version: 3,
            cid: "c3".into(),
            previous: Some("c2".into()),
        },
        CatalogCandidate {
            version: 4,
            cid: "fork".into(),
            previous: Some("elsewhere".into()),
        },
    ];
    assert_eq!(latest_in_chain(1, &"c1".to_string(), &candidates), (3, "c3".to_string()));
    assert_eq!(latest_in_chain(2, &"other".to_string(), &candidates), (2, "other".to_string()));
}

fn request(operation: Operation, roles: &[&str]) -> Request {
    let root = Identity::from_seed([1; 32]);
    let node = Identity::from_seed([2; 32]);
    let credential = arcane_mesh::identity::MembershipClaims {
        credential_version: 1,
        community_id: "community".into(),
        member_public_key: node.public_key(),
        member_id: node.member_id(),
        roles: roles.iter().map(|role| (*role).into()).collect(),
        issued_at: 100,
        expires_at: 200,
        serial: 1,
        issuer_public_key: root.public_key(),
    }
    .issue(&root);
    Request {
        protocol_version: 1,
        request_id: "request-00000001".into(),
        community_id: "community".into(),
        node_id: "node-a".into(),
        operation,
        object_cid: Some("a".repeat(64)),
        issued_at: 100,
        expires_at: 200,
        credential,
    }
}

#[test]
fn enforces_operation_roles_and_limits() {
    assert!(request(Operation::PutObject, &["node"])
        .validate(150, 1024)
        .is_ok());
    assert!(matches!(
        request(Operation::PutObject, &["member"]).validate(150, 1024),
        Err(ProtocolError::Unauthorized)
    ));
    assert!(matches!(
        request(Operation::AuditObject, &["node"]).validate(150, 1024),
        Err(ProtocolError::Unauthorized)
    ));
    assert!(matches!(
        request(Operation::GetObject, &["member"]).validate(150, MAX_FRAME_BYTES + 1),
        Err(ProtocolError::Oversized)
    ));
}

#[test]
fn requests_need_identifiers_lifetimes_and_objects() {
    let mut short = request(Operation::GetObject, &["member"]);
    short.request_id = "short".into();
    assert!(matches!(short.validate(150, 10), Err(ProtocolError::RequestId)));
    let mut long_lived = request(Operation::GetObject, &["member"]);
    long_lived.expires_at = 401;
    assert!(matches!(long_lived.validate(150, 10), Err(ProtocolError::Lifetime)));
    let mut missing = request(Operation::GetObject, &["member"]);
    missing.object_cid = None;
    assert!(matches!(missing.validate(150, 10), Err(ProtocolError::ObjectCid)));
    let mut hello = request(Operation::Hello, &["member"]);
    hello.object_cid = None;
    assert!(hello.validate(150, 10).is_ok());
    assert!(matches!(
        request(Operation::GetObject, &["member"]).validate(250, 10),
        Err(ProtocolError::Lifetime)
    ));
    let mut other = request(Operation::GetObject, &["member"]);
    other.community_id = "elsewhere".into();
    assert!(matches!(other.validate(150, 10), Err(ProtocolError::Credential)));
    assert!(matches!(
        request(Operation::DeleteAfter, &["member"]).validate(150, 10),
        Err(ProtocolError::Unauthorized)
    ));
}

#[test]
fn file_hash_covers_exactly_the_sealed_and_restored_bytes() {
    let key = SecretKey([8; 32]);
    let mut sealing = FileHasher::new();
    let first = seal_chunk_digested(&mut sealing, &key, b"hello ", "vault", "file-v1", 0).unwrap();
    let second = seal_chunk_digested(&mut sealing, &key, b"world", "vault", "file-v1", 1).unwrap();
    assert_eq!(plaintext_hash(&sealing), cid(b"hello world"));
    assert_eq!(
        plaintext_hash(&sealing),
        blake3::hash(b"hello world").to_hex().to_string()
    );

    let mut manifest = manifest();
    manifest.plaintext_hash = plaintext_hash(&sealing);
    let mut restoring = FileHasher::new();
    assert_eq!(
        open_chunk_digested(&mut restoring, &first, 0, &key, "vault", "file-v1").unwrap(),
        b"hello "
    );
    assert!(!restored_matches(&restoring, &manifest));
    assert!(matches!(
        open_chunk_digested(&mut restoring, &second, 0, &key, "vault", "file-v1"),
        Err(VaultError::Integrity)
    ));
    assert!(!restored_matches(&restoring, &manifest));
    open_chunk_digested(&mut restoring, &second, 1, &key, "vault", "file-v1").unwrap();
    assert!(restored_matches(&restoring, &manifest));

    let mut other = FileHasher::new();
    other.update(b"hello world!");
    assert_eq!(other.finish(), *blake3::hash(b"hello world!").as_bytes());
    assert!(!restored_matches(&other, &manifest));
}

#[test]
fn collection_removes_only_unretained_objects_in_order() {
    let candidates: Vec<String> = ["a", "b", "c", "b", "d"].iter().map(|s| s.to_string()).collect();
    let retained: Vec<String> = ["b", "z"].iter().map(|s| s.to_string()).collect();
    assert_eq!(not_retained(&candidates, &retained), vec!["a", "c", "d"]);
    assert!(not_retained(&candidates, &candidates).is_empty());
    assert_eq!(not_retained(&candidates, &Vec::new()), candidates);
    assert_eq!((DATA_REPLICAS, METADATA_REPLICAS), (3, 5));
}

#[test]
fn audits_mark_only_the_object_placements() {
    let placement = |object: &str, node: &str, healthy: bool| Placement {
        object_cid: object.into(),
        node_id: node.into(),
        failure_domain: format!("domain-{node}"),
        healthy,
    };
    let mut placements = vec![
        placement("x", "a", true),
        placement("y", "a", true),
        placement("x", "b", true),
        placement("x", "c", false),
    ];
    assert_eq!(placements_of(&placements, "x"), vec![0, 2, 3]);
    let healthy = record_audits(&mut placements, "x", &[false, false, true, true]);
    assert_eq!(healthy, 2);
    assert!(!placements[0].healthy);
    assert!(placements[1].healthy);
    assert!(placements[2].healthy);
    assert!(placements[3].healthy);
}

#[test]
fn node_put_reports_the_store_refusal() {
    let bytes = b"ciphertext";
    let object_cid = cid(bytes);
    assert!(matches!(
        check_node_put(true, &object_cid, bytes, 4),
        Err(NodeError::Storage(StoreError::Quota))
    ));
    assert!(matches!(
        check_node_put(true, &cid(b"other"), bytes, 1024),
        Err(NodeError::Storage(StoreError::CidMismatch))
    ));
}

#[test]
fn recovery_export_encodes_a_sealed_kit() {
    let bytes = export(&fixture(), b"correct horse battery staple").unwrap();
    let value: serde_json::Value = serde_json::from_slice(&bytes).unwrap();
    assert_eq!(value["format_version"], 1);
    assert_eq!(value["algorithm"], "Argon2id+XChaCha20-Poly1305");
    assert_eq!(value["memory_kib"], DEFAULT_MEMORY_KIB);
    assert_eq!(value["iterations"], 3);
    assert_eq!(value["lanes"], 1);
    assert_eq!(value["salt"].as_array().unwrap().len(), 16);
    assert_eq!(value["envelope"]["version"], 1);
    assert_eq!(value["envelope"]["algorithm"], "XChaCha20-Poly1305");
    let mut payload = Vec::new();
    push_payload_json(&mut payload, &fixture());
    assert_eq!(
        value["envelope"]["ciphertext"].as_array().unwrap().len(),
        payload.len() + 16
    );
}

#[test]
fn requests_are_refused_without_overflow_at_the_time_limits() {
    let mut old_version = request(Operation::GetObject, &["member"]);
    old_version.protocol_version = 2;
    assert!(matches!(
        old_version.validate(i64::MAX, 10),
        Err(ProtocolError::Version)
    ));
    let mut short = request(Operation::GetObject, &["member"]);
    short.request_id = "short".into();
    assert!(matches!(
        short.validate(i64::MAX, 10),
        Err(ProtocolError::RequestId)
    ));
    assert!(matches!(
        request(Operation::GetObject, &["member"]).validate(i64::MIN, 10),
        Err(ProtocolError::Lifetime)
    ));
}

#[test]
fn tombstoning_nothing_needs_no_time_bound() {
    let mut catalog = VaultCatalog {
        catalog_version: u64::MAX,
        vault_id: "vault".into(),
        owner_member_id: "mem_owner".into(),
        previous_catalog_cid: None,
        created_at: 1,
        files: Vec::new(),
    };
    assert!(!tombstone(&mut catalog, "missing", "a".repeat(64), i64::MAX));
    assert_eq!(catalog.catalog_version, u64::MAX);
}
