//! The error taxonomy of the orchestrator and of its ports.

use vstd::prelude::*;
use crate::ident::StoreIdent;

verus! {

/// Errors reported by the cluster metadata authority.
#[derive(Clone, Copy, PartialEq, Eq, Structural, Debug)]
pub enum PdError {
    /// The atomic cluster-bootstrap operation found the cluster already
    /// bootstrapped by a concurrent node.
    ClusterBootstrapped,
    /// Any other authority failure (unavailable, rejected request).
    Other,
}

/// Failure of a persistent-engine read or write.
#[derive(Clone, Copy, PartialEq, Eq, Structural, Debug)]
pub struct EngineError;

/// Failure to deliver a control message to a worker's channel.
#[derive(Clone, Copy, PartialEq, Eq, Structural, Debug)]
pub struct ChannelError;

/// Failure to join a worker thread (the worker panicked).
#[derive(Clone, Copy, PartialEq, Eq, Structural, Debug)]
pub struct JoinError;

/// Failure to construct a store worker.
#[derive(Clone, Copy, PartialEq, Eq, Structural, Debug)]
pub struct WorkerError;

/// Everything the orchestrator can report to its caller.
#[derive(Clone, Copy, PartialEq, Eq, Structural, Debug)]
pub enum NodeError {
    /// An engine's persisted record names a different cluster than the one
    /// this node is configured for; its data directory must not be used.
    ClusterMismatch { ident: StoreIdent, expected: u64 },
    /// Two engines on this node carry records with differing node
    /// identifiers: engines from different nodes were co-located.
    NodeIdentityMismatch { ident: StoreIdent, expected: u64 },
    /// A persisted record carries an INVALID_ID node or store identifier.
    CorruptIdentity { ident: StoreIdent },
    /// Local engines carry state, but the authority reports the cluster as
    /// not yet bootstrapped: a non-empty node cannot coexist with an
    /// uninitialized cluster.
    InconsistentBootstrapState { node_id: u64, cluster_id: u64 },
    /// A worker for this store identifier is already running.
    DuplicateStore { store_id: u64 },
    /// No channel is registered for this store identifier: the store was
    /// never started, or was already stopped.
    UnknownStore { store_id: u64 },
    /// The store's channel existed but its worker handle did not: the
    /// worker terminated out of band.
    WorkerAlreadyGone { store_id: u64 },
    /// An authority call failed.
    Authority { err: PdError },
    /// An engine read or write failed.
    Engine,
    /// A store worker could not be constructed.
    WorkerStart { store_id: u64 },
    /// The terminate message could not be delivered to the worker.
    StoreNotify { store_id: u64 },
    /// The worker thread could not be joined.
    WorkerJoin { store_id: u64 },
}

} // verus!
