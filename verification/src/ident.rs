//! Identity and descriptor types shared by the orchestrator, the authority,
//! and the store workers.

use vstd::prelude::*;

verus! {

/// Sentinel for a node, store, region or peer identifier that has not been
/// allocated yet.  The authority never hands this value out.
pub const INVALID_ID: u64 = 0;

/// The identity record persisted in each engine when its store is first
/// bootstrapped.  Once written, all three fields are immutable for the
/// lifetime of that engine's data directory.
#[derive(Clone, Copy, PartialEq, Eq, Structural, Debug)]
pub struct StoreIdent {
    pub cluster_id: u64,
    pub node_id: u64,
    pub store_id: u64,
}

/// The descriptor of this node as registered with the authority: its
/// identifier (INVALID_ID until allocated or recovered) and the address
/// other nodes use to reach it.
#[derive(Debug)]
pub struct NodeDescriptor {
    pub node_id: u64,
    pub address: String,
}

/// The {node, store} pair reported to the authority for each local store.
#[derive(Clone, Copy, PartialEq, Eq, Structural, Debug)]
pub struct StoreDescriptor {
    pub node_id: u64,
    pub store_id: u64,
}

/// One replica of a region, located at a concrete store of a concrete node.
#[derive(Clone, Copy, PartialEq, Eq, Structural, Debug)]
pub struct PeerDescriptor {
    pub peer_id: u64,
    pub node_id: u64,
    pub store_id: u64,
}

/// The first replication unit of a brand-new cluster: a region with a single
/// initial peer, seeded at this node's first store.
#[derive(Clone, Copy, PartialEq, Eq, Structural, Debug)]
pub struct RegionDescriptor {
    pub region_id: u64,
    pub peer: PeerDescriptor,
}

/// Cluster-wide metadata fetched from the authority and handed to every
/// store worker at startup.
#[derive(Clone, Copy, PartialEq, Eq, Structural, Debug)]
pub struct ClusterMeta {
    pub cluster_id: u64,
    pub max_peer_count: u64,
}

/// Per-store settings passed through to each worker; their interpretation is
/// the worker's concern.
#[derive(Clone, Copy, PartialEq, Eq, Structural, Debug)]
pub struct StoreConfig {
    pub raft_base_tick_ms: u64,
    pub raft_heartbeat_ticks: u64,
    pub raft_election_timeout_ticks: u64,
    pub capacity: u64,
}

/// Node configuration: the cluster this node belongs to, its listen and
/// advertised addresses, and the settings for its store workers.
#[derive(Debug)]
pub struct Config {
    pub cluster_id: u64,
    pub addr: String,
    pub advertise_addr: String,
    pub store_cfg: StoreConfig,
}

} // verus!
