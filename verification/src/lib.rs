//! A chain indexing core: a transactional storage engine for block data
//! with a derived Bloom index over receipt events, and the client side of a
//! full-duplex data-stream protocol with session-id gating and lazy decode.
//!
//! The storage engine ([`storage`]) keeps five per-block tables and the
//! canonical-chain mapping, survives reorgs through a reject primitive, and
//! commits multi-table mutations atomically. The stream session
//! ([`session`]) is a state machine that re-subscribes under a fresh session
//! identifier on every configuration change and silently drops stale,
//! empty, and heartbeat frames.

use vstd::prelude::*;

pub mod block;
pub mod bloom;
pub mod session;
pub mod storage;
pub mod tables;

verus! {

/// Errors surfaced by the storage engine.
#[derive(Clone, Copy, PartialEq, Eq, Debug, Structural)]
pub enum StoreError {
    /// A canonical-chain entry has no status row: the store is corrupt.
    Inconsistent,
}

} // verus!
