//! The node orchestrator: identity recovery and assignment, cluster
//! bootstrap with its race handling, and the store workers' lifecycle.

use core::marker::PhantomData;
use vstd::prelude::*;
use crate::check::check_stores;
use crate::errors::NodeError;
use crate::errors::PdError;
use crate::ident::ClusterMeta;
use crate::ident::Config;
use crate::ident::NodeDescriptor;
use crate::ident::PeerDescriptor;
use crate::ident::RegionDescriptor;
use crate::ident::StoreConfig;
use crate::ident::StoreDescriptor;
use crate::ident::StoreIdent;
use crate::ident::INVALID_ID;
use crate::ports::Engine;
use crate::ports::PdClient;
use crate::ports::StoreChannel;
use crate::ports::StoreWorker;
use crate::ports::Transport;
use crate::ports::WorkerHandle;
use crate::table::HandleTable;

verus! {

/// How this node comes by its identifier: a fresh node allocates one from
/// the authority; a node with prior local state keeps the recovered one.
#[derive(Clone, Copy, PartialEq, Eq, Structural, Debug)]
pub enum NodeIdPlan {
    Allocate,
    Keep(u64),
}

/// The node identity assignment decision: a fresh node (no recovered
/// identifier) allocates; a node with a recovered identifier keeps it, but
/// only a bootstrapped cluster can have handed it out — prior local state
/// beside an uninitialized cluster is an inconsistent bootstrap state.
pub fn plan_node_id(recovered: u64, bootstrapped: bool, cluster_id: u64) -> (r: Result<
    NodeIdPlan,
    NodeError,
>)
    ensures
        (recovered == INVALID_ID ==> r == Ok::<NodeIdPlan, NodeError>(NodeIdPlan::Allocate)),
        (recovered != INVALID_ID && bootstrapped ==> r == Ok::<NodeIdPlan, NodeError>(
            NodeIdPlan::Keep(recovered),
        )),
        (recovered != INVALID_ID && !bootstrapped ==> r == Err::<NodeIdPlan, NodeError>(
            NodeError::InconsistentBootstrapState { node_id: recovered, cluster_id },
        )),
{
    if recovered == INVALID_ID {
        Ok(NodeIdPlan::Allocate)
    } else if bootstrapped {
        Ok(NodeIdPlan::Keep(recovered))
    } else {
        Err(NodeError::InconsistentBootstrapState { node_id: recovered, cluster_id })
    }
}

/// What to do with the authority's answer to the atomic cluster-bootstrap
/// operation.
#[derive(Clone, Copy, PartialEq, Eq, Structural, Debug)]
pub enum BootstrapPlan {
    /// This node won the race: the cluster is bootstrapped with its seed
    /// region.
    Proceed,
    /// A concurrent node won: this node's speculative seed region must be
    /// cleared, after which startup continues as on a bootstrapped cluster.
    ClearAndContinue,
    /// Any other authority failure is fatal for this startup attempt.
    Fatal(PdError),
}

/// The race-handling decision of the cluster bootstrap protocol, as a total
/// function of the authority's answer.
pub fn plan_bootstrap_outcome(outcome: Result<(), PdError>) -> (r: BootstrapPlan)
    ensures
        (outcome is Ok ==> r == BootstrapPlan::Proceed),
        (outcome == Err::<(), PdError>(PdError::ClusterBootstrapped) ==> r
            == BootstrapPlan::ClearAndContinue),
        (outcome matches Err(e) ==> (e != PdError::ClusterBootstrapped ==> r
            == BootstrapPlan::Fatal(e))),
{
    match outcome {
        Ok(()) => BootstrapPlan::Proceed,
        Err(PdError::ClusterBootstrapped) => BootstrapPlan::ClearAndContinue,
        Err(e) => BootstrapPlan::Fatal(e),
    }
}

/// The first replication unit of a brand-new cluster: one region with a
/// single peer, seeded at this node's given store.
pub fn first_region(node_id: u64, store_id: u64, region_id: u64, peer_id: u64) -> (r:
    RegionDescriptor)
    ensures
        r == (RegionDescriptor { region_id, peer: PeerDescriptor { peer_id, node_id, store_id } }),
{
    RegionDescriptor { region_id, peer: PeerDescriptor { peer_id, node_id, store_id } }
}

/// The node orchestrator.  It owns the worker handle table; the authority
/// client and the transport registry are shared with the workers it spawns.
pub struct Node<T, Trans, C, H> {
    cluster_id: u64,
    node: NodeDescriptor,
    store_cfg: StoreConfig,
    store_handles: HandleTable<H>,
    pd_client: T,
    trans: Trans,
    _channel: PhantomData<C>,
}

impl<T, Trans, C, H> Node<T, Trans, C, H> where
    T: PdClient,
    Trans: Transport<C>,
    C: StoreChannel,
    H: WorkerHandle,
 {
    /// The cluster this node is configured for.
    pub closed spec fn spec_cluster_id(&self) -> u64 {
        self.cluster_id
    }

    /// This node's descriptor.
    pub closed spec fn spec_node(&self) -> NodeDescriptor {
        self.node
    }

    /// The per-store settings handed to each worker.
    pub closed spec fn spec_store_cfg(&self) -> StoreConfig {
        self.store_cfg
    }

    /// The worker handle table: one entry per supervised worker.
    pub closed spec fn handles(&self) -> Map<u64, H> {
        self.store_handles@
    }

    /// The shared transport registry handle.
    pub closed spec fn spec_trans(&self) -> Trans {
        self.trans
    }

    /// The transport registry's contents.
    pub open spec fn registry(&self) -> Map<u64, C> {
        self.spec_trans().channels()
    }

    /// The orchestrator's invariant: the handle table is well formed and
    /// finite, and every supervised store identifier has a registered
    /// channel — a worker the orchestrator supervises is reachable.
    pub closed spec fn wf(&self) -> bool {
        &&& self.store_handles.wf()
        &&& self.store_handles@.dom().finite()
        &&& self.store_handles@.dom().subset_of(self.trans.channels().dom())
    }

    /// Everything but the authority client is untouched: same
    /// configuration, same node descriptor, same supervised workers, same
    /// registered channels.
    pub open spec fn same_supervision(pre: Self, post: Self) -> bool {
        &&& post.spec_cluster_id() == pre.spec_cluster_id()
        &&& post.spec_node() == pre.spec_node()
        &&& post.spec_store_cfg() == pre.spec_store_cfg()
        &&& post.handles() == pre.handles()
        &&& post.registry() == pre.registry()
    }

    /// The worker handle table invariant, for callers: a well-formed
    /// orchestrator supervises only store identifiers whose channels are
    /// registered in the transport registry.
    pub proof fn lemma_supervised_registered(&self)
        requires
            self.wf(),
        ensures
            self.handles().dom().subset_of(self.registry().dom()),
    {
    }

    /// Build an orchestrator that has not yet established any identity: its
    /// node identifier is INVALID_ID, its advertised address is the
    /// configured advertise address or, when that is empty, the listen
    /// address, and it supervises no worker.
    pub fn new(cfg: &Config, pd_client: T, trans: Trans) -> (r: Node<T, Trans, C, H>)
        ensures
            r.wf(),
            r.spec_cluster_id() == cfg.cluster_id,
            r.spec_store_cfg() == cfg.store_cfg,
            r.spec_node().node_id == INVALID_ID,
            (cfg.advertise_addr@.len() == 0 ==> r.spec_node().address@ == cfg.addr@),
            (cfg.advertise_addr@.len() != 0 ==> r.spec_node().address@ == cfg.advertise_addr@),
            r.handles() == Map::<u64, H>::empty(),
            r.spec_trans() == trans,
    {
        let address = if cfg.advertise_addr.as_str().is_empty() {
            cfg.addr.clone()
        } else {
            cfg.advertise_addr.clone()
        };
        Node {
            cluster_id: cfg.cluster_id,
            node: NodeDescriptor { node_id: INVALID_ID, address },
            store_cfg: cfg.store_cfg,
            store_handles: HandleTable::new(),
            pd_client,
            trans,
            _channel: PhantomData,
        }
    }

    /// This node's identifier; INVALID_ID until `start` has assigned one.
    pub fn id(&self) -> (r: u64)
        ensures
            r == self.spec_node().node_id,
    {
        self.node.node_id
    }

    /// The shared transport registry handle.
    pub fn get_trans(&self) -> (r: &Trans)
        ensures
            *r == self.spec_trans(),
    {
        &self.trans
    }

    /// The descriptor under which one of this node's stores is reported to
    /// the authority.
    pub fn new_store_meta(&self, store_id: u64) -> (r: StoreDescriptor)
        ensures
            r == (StoreDescriptor { node_id: self.spec_node().node_id, store_id }),
    {
        StoreDescriptor { node_id: self.node.node_id, store_id }
    }

    /// The descriptors of all this node's stores, in store order.
    #[verifier::loop_isolation(false)]
    pub fn new_store_metas(&self, store_ids: &Vec<u64>) -> (r: Vec<StoreDescriptor>)
        ensures
            r@.len() == store_ids@.len(),
            forall|i: int|
                0 <= i < store_ids@.len() ==> r@[i] == (StoreDescriptor {
                    node_id: self.spec_node().node_id,
                    store_id: store_ids@[i],
                }),
    {
        let mut r: Vec<StoreDescriptor> = Vec::new();
        let mut i: usize = 0;
        while i < store_ids.len()
            invariant
                i <= store_ids@.len(),
                r@.len() == i,
                forall|k: int|
                    0 <= k < i ==> r@[k] == (StoreDescriptor {
                        node_id: self.spec_node().node_id,
                        store_id: store_ids@[k],
                    }),
            decreases store_ids@.len() - i,
        {
            r.push(self.new_store_meta(store_ids[i]));
            i += 1;
        }
        r
    }

    /// Bootstrap one not-yet-bootstrapped engine: allocate its store
    /// identifier from the authority and durably write its identity record.
    /// A crash between the two leaves the identifier orphaned at the
    /// authority and the engine unbootstrapped, to be retried with a fresh
    /// allocation on the next startup.
    pub fn bootstrap_store<E: Engine>(&mut self, engine: &mut E) -> (r: Result<u64, NodeError>)
        requires
            old(self).wf(),
            old(self).spec_node().node_id != INVALID_ID,
        ensures
            final(self).wf(),
            Self::same_supervision(*old(self), *final(self)),
            (r matches Ok(store_id) ==> ({
                &&& store_id != INVALID_ID
                &&& final(engine).ident_record() == Some(
                    StoreIdent {
                        cluster_id: old(self).spec_cluster_id(),
                        node_id: old(self).spec_node().node_id,
                        store_id,
                    },
                )
                &&& final(engine).regions() == old(engine).regions()
            })),
            (r matches Err(e) ==> (e matches NodeError::Authority { .. } || e == NodeError::Engine)),
    {
        let store_id = match self.pd_client.alloc_id() {
            Ok(v) => v,
            Err(e) => {
                return Err(NodeError::Authority { err: e });
            },
        };
        let ident = StoreIdent {
            cluster_id: self.cluster_id,
            node_id: self.node.node_id,
            store_id,
        };
        match engine.write_ident(ident) {
            Ok(()) => Ok(store_id),
            Err(_) => Err(NodeError::Engine),
        }
    }

    /// Allocate the first region's identifiers and durably seed the region,
    /// with its single peer at this node's given store, in the seed engine.
    pub fn bootstrap_first_region<E: Engine>(&mut self, engine: &mut E, store_id: u64) -> (r:
        Result<RegionDescriptor, NodeError>)
        requires
            old(self).wf(),
            old(self).spec_node().node_id != INVALID_ID,
        ensures
            final(self).wf(),
            Self::same_supervision(*old(self), *final(self)),
            (r matches Ok(region) ==> ({
                &&& region.region_id != INVALID_ID
                &&& region.peer.peer_id != INVALID_ID
                &&& region.peer.node_id == old(self).spec_node().node_id
                &&& region.peer.store_id == store_id
                &&& final(engine).regions() == old(engine).regions().insert(
                    region.region_id,
                    region,
                )
                &&& final(engine).ident_record() == old(engine).ident_record()
            })),
            (r matches Err(e) ==> (e matches NodeError::Authority { .. } || e == NodeError::Engine)),
    {
        let region_id = match self.pd_client.alloc_id() {
            Ok(v) => v,
            Err(e) => {
                return Err(NodeError::Authority { err: e });
            },
        };
        let peer_id = match self.pd_client.alloc_id() {
            Ok(v) => v,
            Err(e) => {
                return Err(NodeError::Authority { err: e });
            },
        };
        let region = first_region(self.node.node_id, store_id, region_id, peer_id);
        match engine.write_first_region(region) {
            Ok(()) => Ok(region),
            Err(_) => Err(NodeError::Engine),
        }
    }

    /// Invoke the authority's atomic cluster-bootstrap operation and handle
    /// the race: when a concurrent node already bootstrapped the cluster,
    /// the speculative seed region is cleared from the seed engine and
    /// startup continues; any other authority failure is fatal.
    pub fn bootstrap_cluster<E: Engine>(
        &mut self,
        engine: &mut E,
        store_ids: &Vec<u64>,
        region: RegionDescriptor,
    ) -> (r: Result<(), NodeError>)
        requires
            old(self).wf(),
        ensures
            final(self).wf(),
            Self::same_supervision(*old(self), *final(self)),
            (r matches Err(e) ==> (e matches NodeError::Authority { .. } || e == NodeError::Engine)),
            (r is Ok ==> ({
                &&& final(engine).ident_record() == old(engine).ident_record()
                &&& (final(engine).regions() == old(engine).regions() || final(engine).regions()
                    == old(engine).regions().remove(region.region_id))
            })),
            (r matches Err(NodeError::Authority { .. }) ==> *final(engine) == *old(engine)),
    {
        let stores = self.new_store_metas(store_ids);
        let outcome = self.pd_client.bootstrap_cluster(self.cluster_id, &self.node, stores, region);
        match plan_bootstrap_outcome(outcome) {
            BootstrapPlan::Proceed => Ok(()),
            BootstrapPlan::ClearAndContinue => match engine.clear_region(region.region_id) {
                Ok(()) => Ok(()),
                Err(_) => Err(NodeError::Engine),
            },
            BootstrapPlan::Fatal(e) => Err(NodeError::Authority { err: e }),
        }
    }

    /// Start one store's worker: construct it, register its channel in the
    /// transport registry before its loop runs — no message for it can ever
    /// lack a route — then launch it and record its handle.  A store
    /// identifier that already has a running worker is refused.
    pub fn start_store<E, W>(&mut self, meta: ClusterMeta, store_id: u64, engine: E) -> (r: Result<
        (),
        NodeError,
    >) where E: Engine, W: StoreWorker<T, Trans, E, C, H>, T: Clone, Trans: Clone
        requires
            old(self).wf(),
        ensures
            final(self).wf(),
            final(self).spec_cluster_id() == old(self).spec_cluster_id(),
            final(self).spec_node() == old(self).spec_node(),
            final(self).spec_store_cfg() == old(self).spec_store_cfg(),
            (old(self).handles().contains_key(store_id) ==> r == Err::<(), NodeError>(
                NodeError::DuplicateStore { store_id },
            )),
            (r == Err::<(), NodeError>(NodeError::DuplicateStore { store_id }) ==> old(
                self,
            ).handles().contains_key(store_id)),
            (r matches Err(e) ==> (e matches NodeError::DuplicateStore { .. } || e matches
                NodeError::WorkerStart { .. })),
            (r is Err ==> final(self).handles() == old(self).handles() && final(self).registry()
                == old(self).registry()),
            (r is Ok ==> ({
                &&& !old(self).handles().contains_key(store_id)
                &&& final(self).handles().contains_key(store_id)
                &&& final(self).handles().remove(store_id) == old(self).handles()
                &&& final(self).registry().contains_key(store_id)
                &&& exists|ch: C|
                    final(self).registry() == old(self).registry().insert(store_id, ch)
            })),
    {
        if self.store_handles.contains(store_id) {
            return Err(NodeError::DuplicateStore { store_id });
        }
        let worker = match W::create(
            meta,
            self.store_cfg,
            engine,
            self.trans.clone(),
            self.pd_client.clone(),
        ) {
            Ok(w) => w,
            Err(_) => {
                return Err(NodeError::WorkerStart { store_id });
            },
        };
        let ch = worker.channel();
        self.trans.add_sendch(store_id, ch);
        let h = worker.launch();
        self.store_handles.insert(store_id, h);
        proof {
            assert(self.handles().remove(store_id) =~= old(self).handles());
            assert(self.registry() == old(self).registry().insert(store_id, ch));
            assert(self.store_handles@.dom().subset_of(self.trans.channels().dom()));
        }
        Ok(())
    }

    /// Stop one store's worker: deregister its channel (`UnknownStore` when
    /// none is registered — never started, or already stopped), take its
    /// handle (`WorkerAlreadyGone` when the worker terminated out of band),
    /// send the terminate message, and join the thread.  Once channel and
    /// handle are both found, both are removed whatever the worker does.
    pub fn stop_store(&mut self, store_id: u64) -> (r: Result<(), NodeError>)
        requires
            old(self).wf(),
        ensures
            final(self).wf(),
            final(self).spec_cluster_id() == old(self).spec_cluster_id(),
            final(self).spec_node() == old(self).spec_node(),
            final(self).spec_store_cfg() == old(self).spec_store_cfg(),
            (!old(self).registry().contains_key(store_id) ==> ({
                &&& r == Err::<(), NodeError>(NodeError::UnknownStore { store_id })
                &&& final(self).registry() == old(self).registry()
                &&& final(self).handles() == old(self).handles()
            })),
            (old(self).registry().contains_key(store_id) && !old(self).handles().contains_key(
                store_id,
            ) ==> ({
                &&& r == Err::<(), NodeError>(NodeError::WorkerAlreadyGone { store_id })
                &&& final(self).registry() == old(self).registry().remove(store_id)
                &&& final(self).handles() == old(self).handles()
            })),
            (old(self).registry().contains_key(store_id) && old(self).handles().contains_key(
                store_id,
            ) ==> ({
                &&& final(self).registry() == old(self).registry().remove(store_id)
                &&& final(self).handles() == old(self).handles().remove(store_id)
                &&& (r is Ok || r == Err::<(), NodeError>(NodeError::StoreNotify { store_id }) || r
                    == Err::<(), NodeError>(NodeError::WorkerJoin { store_id }))
            })),
            (r is Ok ==> old(self).registry().contains_key(store_id) && old(
                self,
            ).handles().contains_key(store_id)),
    {
        let ch = match self.trans.remove_sendch(store_id) {
            Some(c) => c,
            None => {
                return Err(NodeError::UnknownStore { store_id });
            },
        };
        let h = match self.store_handles.remove(store_id) {
            Some(h) => h,
            None => {
                return Err(NodeError::WorkerAlreadyGone { store_id });
            },
        };
        if ch.send_quit().is_err() {
            return Err(NodeError::StoreNotify { store_id });
        }
        match h.join() {
            Ok(()) => Ok(()),
            Err(_) => Err(NodeError::WorkerJoin { store_id }),
        }
    }

    /// Orchestrator teardown: stop every supervised store, in no particular
    /// order, best-effort and total — a store whose stop fails does not
    /// keep the remaining stores from being stopped.  Afterwards the handle
    /// table is empty and no previously supervised store identifier is
    /// still registered; registrations the orchestrator does not own are
    /// untouched.
    #[verifier::loop_isolation(false)]
    pub fn shutdown(&mut self)
        requires
            old(self).wf(),
        ensures
            final(self).wf(),
            final(self).spec_cluster_id() == old(self).spec_cluster_id(),
            final(self).spec_node() == old(self).spec_node(),
            final(self).spec_store_cfg() == old(self).spec_store_cfg(),
            final(self).handles() == Map::<u64, H>::empty(),
            final(self).registry() == old(self).registry().remove_keys(old(self).handles().dom()),
    {
        let ids = self.store_handles.ids();
        let mut i: usize = 0;
        while i < ids.len()
            invariant
                i <= ids@.len(),
                self.wf(),
                self.spec_cluster_id() == old(self).spec_cluster_id(),
                self.spec_node() == old(self).spec_node(),
                self.spec_store_cfg() == old(self).spec_store_cfg(),
                self.handles() == old(self).handles().remove_keys(
                    ids@.take(i as int).to_set(),
                ),
                self.registry() == old(self).registry().remove_keys(
                    ids@.take(i as int).to_set(),
                ),
            decreases ids@.len() - i,
        {
            proof {
                assert(!ids@.take(i as int).contains(ids@[i as int])) by {
                    if ids@.take(i as int).contains(ids@[i as int]) {
                        let k = choose|k: int|
                            0 <= k < i && #[trigger] ids@.take(i as int)[k] == ids@[i as int];
                        assert(ids@[k] == ids@[i as int]);
                    }
                }
                assert(ids@.contains(ids@[i as int]));
                assert(self.handles().contains_key(ids@[i as int]));
            }
            let _ = self.stop_store(ids[i]);
            proof {
                assert(ids@.take(i as int + 1).to_set() =~= ids@.take(i as int).to_set().insert(
                    ids@[i as int],
                )) by {
                    assert forall|x: u64| #[trigger]
                        ids@.take(i as int + 1).contains(x) implies ids@.take(
                        i as int,
                    ).to_set().insert(ids@[i as int]).contains(x) by {
                        let k = choose|k: int|
                            0 <= k < i + 1 && #[trigger] ids@.take(i as int + 1)[k] == x;
                        if k < i {
                            assert(ids@.take(i as int)[k] == x);
                        }
                    }
                    assert forall|x: u64|
                        ids@.take(i as int).to_set().insert(ids@[i as int]).contains(
                            x,
                        ) implies #[trigger] ids@.take(i as int + 1).contains(x) by {
                        if x == ids@[i as int] {
                            assert(ids@.take(i as int + 1)[i as int] == x);
                        } else {
                            let k = choose|k: int|
                                0 <= k < i && #[trigger] ids@.take(i as int)[k] == x;
                            assert(ids@.take(i as int + 1)[k] == x);
                        }
                    }
                }
                assert(self.handles() =~= old(self).handles().remove_keys(
                    ids@.take(i as int + 1).to_set(),
                ));
                assert(self.registry() =~= old(self).registry().remove_keys(
                    ids@.take(i as int + 1).to_set(),
                ));
            }
            i += 1;
        }
        proof {
            assert(ids@.take(ids@.len() as int) =~= ids@);
            assert(forall|id: u64| #[trigger]
                ids@.to_set().contains(id) <==> ids@.contains(id));
            assert(self.handles() =~= Map::<u64, H>::empty());
            assert(self.registry() =~= old(self).registry().remove_keys(
                old(self).handles().dom(),
            ));
        }
    }

    /// The node startup sequence: recover or allocate identity, bootstrap
    /// unbootstrapped engines, bootstrap the cluster when the authority
    /// reports it uninitialized, register the node, and start one worker
    /// per engine.  On success this node's identifier is assigned and one
    /// new worker per engine is supervised and registered.
    #[verifier::loop_isolation(false)]
    pub fn start<E, W>(&mut self, engines: Vec<E>) -> (r: Result<(), NodeError>) where
        E: Engine,
        W: StoreWorker<T, Trans, E, C, H>,
        T: Clone,
        Trans: Clone,

        requires
            old(self).wf(),
            engines@.len() > 0,
        ensures
            final(self).wf(),
            final(self).spec_cluster_id() == old(self).spec_cluster_id(),
            final(self).spec_store_cfg() == old(self).spec_store_cfg(),
            final(self).spec_node().address == old(self).spec_node().address,
            (r is Ok ==> final(self).spec_node().node_id != INVALID_ID),
            (r is Ok ==> final(self).handles().dom().len() == old(self).handles().dom().len()
                + engines@.len()),
            (r is Ok ==> forall|id: u64|
                old(self).handles().contains_key(id) ==> final(self).handles().contains_key(id)),
            (r matches Err(e) ==> ((e matches NodeError::ClusterMismatch { .. } || e matches
                NodeError::NodeIdentityMismatch { .. } || e matches NodeError::CorruptIdentity {
                    ..
                } || e matches NodeError::InconsistentBootstrapState { .. }) ==> ({
                &&& final(self).handles() == old(self).handles()
                &&& final(self).registry() == old(self).registry()
                &&& final(self).spec_node() == old(self).spec_node()
            }))),
    {
        let mut engines = engines;
        let n: usize = engines.len();

        // Ask the authority whether the cluster has been bootstrapped.
        let bootstrapped = match self.pd_client.is_cluster_bootstrapped(self.cluster_id) {
            Ok(b) => b,
            Err(e) => {
                return Err(NodeError::Authority { err: e });
            },
        };

        // Read each engine's persisted identity record.
        let mut idents: Vec<Option<StoreIdent>> = Vec::new();
        let mut i: usize = 0;
        while i < n
            invariant
                i <= n,
                idents@.len() == i,
            decreases n - i,
        {
            match engines[i].read_ident() {
                Ok(rec) => idents.push(rec),
                Err(_) => {
                    return Err(NodeError::Engine);
                },
            }
            i += 1;
        }

        // Recover identity from the records.
        let (recovered, mut store_ids) = match check_stores(self.cluster_id, &idents) {
            Ok(p) => p,
            Err(e) => {
                return Err(e);
            },
        };
        proof {
            // Recovery returns one store identifier per engine.
            crate::check::lemma_check_records_values(
                self.cluster_id,
                idents@,
                INVALID_ID,
                Seq::empty(),
            );
        }

        // Assign this node's identifier.
        let node_id = match plan_node_id(recovered, bootstrapped, self.cluster_id) {
            Ok(NodeIdPlan::Keep(id)) => id,
            Ok(NodeIdPlan::Allocate) => match self.pd_client.alloc_id() {
                Ok(id) => id,
                Err(e) => {
                    return Err(NodeError::Authority { err: e });
                },
            },
            Err(e) => {
                return Err(e);
            },
        };
        self.node.node_id = node_id;
        proof {
            assert(node_id != INVALID_ID);
        }

        // Bootstrap every engine that has no store identity yet.
        let mut i: usize = 0;
        while i < n
            invariant
                i <= n,
                engines@.len() == n,
                store_ids@.len() == n,
                self.wf(),
                self.spec_node().node_id == node_id,
                self.spec_node().address == old(self).spec_node().address,
                self.spec_cluster_id() == old(self).spec_cluster_id(),
                self.spec_store_cfg() == old(self).spec_store_cfg(),
                self.handles() == old(self).handles(),
                self.registry() == old(self).registry(),
            decreases n - i,
        {
            if store_ids[i] == INVALID_ID {
                match self.bootstrap_store(&mut engines[i]) {
                    Ok(store_id) => {
                        store_ids[i] = store_id;
                    },
                    Err(e) => {
                        return Err(e);
                    },
                };
            }
            i += 1;
        }

        // A cluster the authority reports as uninitialized is bootstrapped
        // here, seeded with this node's first store; a concurrent winner is
        // handled inside bootstrap_cluster.
        if !bootstrapped {
            let region = match self.bootstrap_first_region(&mut engines[0], store_ids[0]) {
                Ok(region) => region,
                Err(e) => {
                    return Err(e);
                },
            };
            match self.bootstrap_cluster(&mut engines[0], &store_ids, region) {
                Ok(()) => (),
                Err(e) => {
                    return Err(e);
                },
            };
        }

        // Register the node (idempotent) and fetch the metadata the
        // workers need.
        match self.pd_client.put_node(self.cluster_id, &self.node) {
            Ok(()) => (),
            Err(e) => {
                return Err(NodeError::Authority { err: e });
            },
        };
        let meta = match self.pd_client.get_cluster_meta(self.cluster_id) {
            Ok(m) => m,
            Err(e) => {
                return Err(NodeError::Authority { err: e });
            },
        };

        // Start one worker per engine and report its store to the
        // authority.
        let mut i: usize = 0;
        while i < n
            invariant
                i <= n,
                engines@.len() == n - i,
                store_ids@.len() == n,
                self.wf(),
                self.spec_node().node_id == node_id,
                self.spec_node().address == old(self).spec_node().address,
                self.spec_cluster_id() == old(self).spec_cluster_id(),
                self.spec_store_cfg() == old(self).spec_store_cfg(),
                self.handles().dom().finite(),
                self.handles().dom().len() == old(self).handles().dom().len() + i,
                forall|id: u64|
                    old(self).handles().contains_key(id) ==> self.handles().contains_key(id),
            decreases n - i,
        {
            let engine = engines.remove(0);
            let ghost pre = self.handles();
            match self.start_store::<E, W>(meta, store_ids[i], engine) {
                Ok(()) => (),
                Err(e) => {
                    return Err(e);
                },
            };
            proof {
                assert(self.handles().dom() =~= pre.dom().insert(store_ids@[i as int]));
            }
            // A store that fails to report is still running locally, only
            // cluster-invisible: a recoverable follow-up, not fatal.
            let _ = self.pd_client.put_store(self.cluster_id, self.new_store_meta(store_ids[i]));
            i += 1;
        }

        Ok(())
    }
}

} // verus!
