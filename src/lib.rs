//! A multisignature transaction engine for a permissioned ledger.
//!
//! Accounts become collectively controlled by recording a weighted set of
//! signatories, a quorum and a proposal time-to-live in their metadata.
//! Proposals are keyed by the digest of their instruction list, gather
//! approvals, and execute under the multisig account's authority once the
//! weighted approvals reach quorum before the proposal expires.

pub mod copy;
pub mod names;
pub mod order;
pub mod table;
pub mod keys;
pub mod instruction;
pub mod hash;
pub mod world;
pub mod config;
pub mod approve;
pub mod invariants;
pub mod propose;
pub mod register;
pub mod executor;
pub mod laws;
