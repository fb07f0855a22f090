//! Ports to the external collaborators: the cluster metadata authority, the
//! persistent engine, the transport registry, and the store workers.
//!
//! The orchestrator is generic over these traits; a deployment implements
//! them over its real authority client, engines, channels and threads, and
//! tests implement them in memory.  Every decision the orchestrator takes on
//! their answers is verified; what the contracts here promise of the
//! collaborators themselves is the trust boundary of this crate, and is kept
//! to what the interface contract of each collaborator states.

use vstd::prelude::*;
use crate::errors::ChannelError;
use crate::errors::EngineError;
use crate::errors::JoinError;
use crate::errors::PdError;
use crate::errors::WorkerError;
use crate::ident::ClusterMeta;
use crate::ident::NodeDescriptor;
use crate::ident::RegionDescriptor;
use crate::ident::StoreConfig;
use crate::ident::StoreDescriptor;
use crate::ident::StoreIdent;
use crate::ident::INVALID_ID;

verus! {

/// The cluster metadata authority.  Every call is a blocking round trip and
/// may fail with the authority unavailable; nothing here promises success.
pub trait PdClient: Sized {
    /// Allocate a fresh, globally unique identifier.  The authority never
    /// hands out the INVALID_ID sentinel.
    fn alloc_id(&mut self) -> (r: Result<u64, PdError>)
        ensures
            (r matches Ok(id) ==> id != INVALID_ID),
    ;

    /// Whether the cluster has already been bootstrapped.
    fn is_cluster_bootstrapped(&self, cluster_id: u64) -> (r: Result<bool, PdError>);

    /// Register this node's descriptor; idempotent, safe to repeat on
    /// restart.
    fn put_node(&mut self, cluster_id: u64, node: &NodeDescriptor) -> (r: Result<(), PdError>);

    /// Register one store's descriptor.
    fn put_store(&mut self, cluster_id: u64, store: StoreDescriptor) -> (r: Result<(), PdError>);

    /// Fetch the cluster-wide metadata store workers need.
    fn get_cluster_meta(&self, cluster_id: u64) -> (r: Result<ClusterMeta, PdError>);

    /// The atomic cluster-bootstrap operation.  Exactly one competing node's
    /// call succeeds; a loser is told `ClusterBootstrapped`.
    fn bootstrap_cluster(
        &mut self,
        cluster_id: u64,
        node: &NodeDescriptor,
        stores: Vec<StoreDescriptor>,
        region: RegionDescriptor,
    ) -> (r: Result<(), PdError>);
}

/// The transport registry: the map from store identifier to that store's
/// inbound message channel.  The orchestrator is the only writer for its
/// own store identifiers; `channels` is the registry's contents as this
/// single writer sees them.
pub trait Transport<C>: Sized {
    /// The registered channels, by store identifier.  The default stands
    /// for a registry nothing was ever added to; an implementation's
    /// registry is reasoned about only through the contracts below.
    open spec fn channels(&self) -> Map<u64, C> {
        Map::empty()
    }

    /// Register a channel under a store identifier, replacing any previous
    /// registration.
    fn add_sendch(&mut self, store_id: u64, ch: C)
        ensures
            final(self).channels() == old(self).channels().insert(store_id, ch),
    ;

    /// Deregister and return the channel under a store identifier, if one
    /// is registered.
    fn remove_sendch(&mut self, store_id: u64) -> (r: Option<C>)
        ensures
            (r is Some <==> old(self).channels().contains_key(store_id)),
            (r matches Some(ch) ==> ch == old(self).channels()[store_id]),
            final(self).channels() == old(self).channels().remove(store_id),
    ;
}

/// One store's persistent engine, read and written during identity
/// recovery and bootstrap.  `ident_record` and `regions` are the engine's
/// durable contents as the orchestrator sees them; a failed write leaves
/// them unspecified (a crash mid-write is tolerated by retrying the whole
/// bootstrap on the next startup).
pub trait Engine: Sized {
    /// The persisted store identity record, if the engine was ever
    /// bootstrapped.  The default stands for an empty data directory; an
    /// implementation's contents are reasoned about only through the
    /// contracts below.
    open spec fn ident_record(&self) -> Option<StoreIdent> {
        None
    }

    /// The region metadata the engine durably holds, by region identifier.
    open spec fn regions(&self) -> Map<u64, RegionDescriptor> {
        Map::empty()
    }

    /// Read the persisted store identity record.
    fn read_ident(&self) -> (r: Result<Option<StoreIdent>, EngineError>)
        ensures
            (r matches Ok(rec) ==> rec == self.ident_record()),
    ;

    /// Durably initialize this engine with its identity record; written
    /// exactly once, at first bootstrap of the engine.
    fn write_ident(&mut self, ident: StoreIdent) -> (r: Result<(), EngineError>)
        ensures
            (r is Ok ==> final(self).ident_record() == Some(ident) && final(self).regions()
                == old(self).regions()),
    ;

    /// Durably write the first region's metadata, seeding a brand-new
    /// cluster's single replication unit at this engine.
    fn write_first_region(&mut self, region: RegionDescriptor) -> (r: Result<(), EngineError>)
        ensures
            (r is Ok ==> final(self).regions() == old(self).regions().insert(
                region.region_id,
                region,
            ) && final(self).ident_record() == old(self).ident_record()),
    ;

    /// Compensating operation: clear a speculatively written region after
    /// losing the cluster-bootstrap race.
    fn clear_region(&mut self, region_id: u64) -> (r: Result<(), EngineError>)
        ensures
            (r is Ok ==> final(self).regions() == old(self).regions().remove(region_id)
                && final(self).ident_record() == old(self).ident_record()),
    ;
}

/// A store worker's inbound control channel, as held by the orchestrator.
pub trait StoreChannel: Sized {
    /// Deliver the terminate message; the worker's loop runs to completion
    /// after receiving it.
    fn send_quit(&self) -> (r: Result<(), ChannelError>);
}

/// The handle of a launched worker, joined on shutdown.
pub trait WorkerHandle: Sized {
    /// Block until the worker's thread has fully terminated; fails if the
    /// worker panicked.
    fn join(self) -> (r: Result<(), JoinError>);
}

/// A store worker: constructed with everything one store's event loop
/// needs, it exposes its inbound channel before it is launched, so the
/// channel can be registered before any message could arrive for it.
pub trait StoreWorker<T, Trans, E, C, H>: Sized {
    /// Construct the worker, not yet running.
    fn create(
        meta: ClusterMeta,
        cfg: StoreConfig,
        engine: E,
        trans: Trans,
        pd_client: T,
    ) -> (r: Result<Self, WorkerError>);

    /// The worker's inbound control channel.
    fn channel(&self) -> (r: C);

    /// Start the worker's loop on its own thread, returning the handle to
    /// join it.
    fn launch(self) -> (r: H);
}

} // verus!
