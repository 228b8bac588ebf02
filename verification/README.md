# Arcane Commons Mesh

An encrypted cooperative storage mesh with signed community records, whose
core is written in Verus and proved against its specifications.

## Layout

- `src/` — the verified library.
  - Records signed with Ed25519 and named by BLAKE3 digests: `identity`
    (membership credentials and node certificates), `research`, `spell`,
    `capability`, `compute`, `memory`, `legacy`, `grimoire`, `settlement`,
    `federation`, `credit`, `audit`.
  - The control plane: `control` (members, nodes, objects, placements,
    catalog pointers, proposals, votes, credit, challenges and snapshots),
    over the sorted tables of `table`.
  - Encrypted storage: `crypto` (XChaCha20-Poly1305 envelopes), `vault`
    (chunked file contents), `catalog` (encrypted manifests and owner-signed
    catalogs), `vault_ops` (how a catalog moves from version to version),
    `recovery` (Argon2id-sealed Recovery Kits), `store` and `node` (what a
    storage node accepts and answers), `mesh` (replica placement), `protocol`
    (request validation).
  - Encodings and helpers: `text`, `json`, `order`, `hashing`, `signing`,
    `entropy`.
- `app/` — the `acmctl` command line: files, processes and JSON parsing
  around the library.
- `tests/` — tests of the library through its public interface.

Calls into the cryptographic crates go through small trusted wrappers whose
contracts name their results; everything built on them is verified.

## Not included

The QUIC network transport (with its replay database), the network storage
service and its smoke test, and the Tauri desktop application are not part of
this crate. What a storage node decides for a network request stands in
`node` (`plan_request`, `reply_for`, `wire_response`) and `protocol`
(`Request::validate`); how a catalog moves on, which the desktop shares with
the command line, stands in `vault_ops`.
