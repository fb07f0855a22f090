//! Node-level orchestrator for a multi-store, Raft-replicated key-value node.
//!
//! A node hosts several independent stores, each backed by its own persistent
//! engine and supervised as its own worker.  This crate verifies the node's
//! bootstrap and supervision logic: recovering or allocating node and store
//! identity, bootstrapping a brand-new cluster exactly once while tolerating
//! races with other nodes, and starting and stopping store workers so that a
//! store identifier is registered with the transport exactly while its worker
//! is supervised.
//!
//! The cluster metadata authority, the persistent engine, the transport
//! registry, and the store workers themselves are external collaborators.
//! They are reached through the port traits ([`PdClient`], [`Transport`],
//! [`Engine`], [`StoreWorker`], [`StoreChannel`], [`WorkerHandle`]); the
//! orchestration decisions taken on their answers are verified here.

mod check;
mod errors;
mod ident;
mod node;
mod ports;
mod table;

pub use check::all_conform;
pub use check::all_ids_valid;
pub use check::check_records;
pub use check::check_stores;
pub use check::node_ids_agree;
pub use check::node_ids_agree_from;
pub use check::record_conforms;
pub use check::spec_check_stores;
pub use errors::ChannelError;
pub use errors::EngineError;
pub use errors::JoinError;
pub use errors::NodeError;
pub use errors::PdError;
pub use errors::WorkerError;
pub use node::first_region;
pub use node::plan_bootstrap_outcome;
pub use node::plan_node_id;
pub use node::BootstrapPlan;
pub use node::Node;
pub use node::NodeIdPlan;
pub use ports::Engine;
pub use ports::PdClient;
pub use ports::StoreChannel;
pub use ports::StoreWorker;
pub use ports::Transport;
pub use ports::WorkerHandle;
pub use table::HandleTable;
pub use ident::ClusterMeta;
pub use ident::Config;
pub use ident::NodeDescriptor;
pub use ident::PeerDescriptor;
pub use ident::RegionDescriptor;
pub use ident::StoreConfig;
pub use ident::StoreDescriptor;
pub use ident::StoreIdent;
pub use ident::INVALID_ID;
