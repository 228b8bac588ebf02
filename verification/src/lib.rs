//! Arcane Commons Mesh: the verified core of an encrypted cooperative storage
//! mesh with signed research, spell, capability, compute, memory, legacy,
//! grimoire, settlement and federation records.
use vstd::prelude::*;

pub mod text;
pub mod hashing;
pub mod json;
pub mod order;
pub mod entropy;
pub mod signing;
pub mod identity;
pub mod credit;
pub mod capability;
pub mod spell;
pub mod legacy;
pub mod memory;
pub mod research;
pub mod compute;
pub mod settlement;
pub mod federation;
pub mod grimoire;
pub mod audit;
pub mod protocol;
pub mod table;
pub mod control;
pub mod crypto;
pub mod vault;
pub mod catalog;
pub mod recovery;
pub mod store;
pub mod node;
pub mod mesh;
pub mod vault_ops;

verus! {

/// Wire protocol version of every signed record.
pub const PROTOCOL_VERSION: u16 = 1;

/// Plaintext size of one vault chunk.
pub const DEFAULT_CHUNK_SIZE: usize = 4 * 1024 * 1024;

} // verus!
