//! A client-hosted encrypted file vault.
//!
//! Clients seal file bodies into cryptographic envelopes (AEAD encryption,
//! RSA signature, salted name hash) and upload them to an untrusted store.
//! The store indexes ciphertexts in a fixed-depth Merkle tree, hands out
//! inclusion proofs on every retrieval, and commits its whole contents
//! under a single top hash that clients can check.

use vstd::prelude::*;

pub mod accounts;
pub mod client;
pub mod crypto;
pub mod data;
pub mod file;
pub mod handlers;
pub mod hash;
pub mod merkle_tree;
pub mod types;

verus! {

/// Depth of the Merkle tree: every store has exactly 2^MAX_DEPTH leaf slots.
pub const MAX_DEPTH: usize = 8;

/// Number of leaf slots in the tree (2^MAX_DEPTH).
pub const MAX_FILE_ID: u64 = 256;

/// Failures surfaced by the vault's core operations.
#[derive(Clone, Copy, Debug, PartialEq, Eq, Structural)]
pub enum VaultError {
    /// Every slot of the tree has been allocated.
    StoreFull,
    /// The requested name hash has no entry.
    NotFound,
    /// A blob's persisted body was lost or corrupted.
    IoError,
    /// The blob's body lives on disk; it must be handed back to the store
    /// before the envelope can be produced.
    NotResident,
    /// The AEAD tag did not verify.
    DecryptionFailure,
    /// The detached signature did not match.
    SignatureInvalid,
    /// The recomputed top hash differs from the declared one.
    ProofInvalid,
}

} // verus!
