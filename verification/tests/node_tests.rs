//! Orchestrator lifecycle tests: startup scenarios, the cluster-bootstrap
//! race, store stop semantics, and teardown.

use std::cell::RefCell;
use std::collections::HashMap;
use std::rc::Rc;

use raft_node::ChannelError;
use raft_node::ClusterMeta;
use raft_node::Config;
use raft_node::Engine;
use raft_node::EngineError;
use raft_node::JoinError;
use raft_node::Node;
use raft_node::NodeError;
use raft_node::PdClient;
use raft_node::PdError;
use raft_node::RegionDescriptor;
use raft_node::StoreChannel;
use raft_node::StoreConfig;
use raft_node::StoreDescriptor;
use raft_node::StoreIdent;
use raft_node::StoreWorker;
use raft_node::Transport;
use raft_node::WorkerError;
use raft_node::WorkerHandle;
use raft_node::INVALID_ID;

#[derive(Default)]
struct AuthorityState {
    bootstrapped: bool,
    report_bootstrapped: Option<bool>,
    next_id: u64,
    alloc_count: u64,
    bootstrap_calls: Vec<(u64, u64, Vec<StoreDescriptor>, RegionDescriptor)>,
    put_nodes: Vec<(u64, u64, String)>,
    put_stores: Vec<(u64, StoreDescriptor)>,
    fail_bootstrap: bool,
    fail_worker_create: bool,
    fail_quit_for: Option<u64>,
    fail_join_for: Option<u64>,
    quit_log: Vec<u64>,
    join_log: Vec<u64>,
    launched: Vec<u64>,
}

fn new_state() -> Rc<RefCell<AuthorityState>> {
    Rc::new(RefCell::new(AuthorityState { next_id: 1, ..Default::default() }))
}

#[derive(Clone)]
struct MockPd(Rc<RefCell<AuthorityState>>);

impl PdClient for MockPd {
    fn alloc_id(&mut self) -> Result<u64, PdError> {
        let mut s = self.0.borrow_mut();
        let id = s.next_id;
        s.next_id += 1;
        s.alloc_count += 1;
        Ok(id)
    }

    fn is_cluster_bootstrapped(&self, _cluster_id: u64) -> Result<bool, PdError> {
        let s = self.0.borrow();
        Ok(s.report_bootstrapped.unwrap_or(s.bootstrapped))
    }

    fn put_node(&mut self, cluster_id: u64, node: &raft_node::NodeDescriptor) -> Result<(), PdError> {
        self.0.borrow_mut().put_nodes.push((cluster_id, node.node_id, node.address.clone()));
        Ok(())
    }

    fn put_store(&mut self, cluster_id: u64, store: StoreDescriptor) -> Result<(), PdError> {
        self.0.borrow_mut().put_stores.push((cluster_id, store));
        Ok(())
    }

    fn get_cluster_meta(&self, cluster_id: u64) -> Result<ClusterMeta, PdError> {
        Ok(ClusterMeta { cluster_id, max_peer_count: 3 })
    }

    fn bootstrap_cluster(
        &mut self,
        cluster_id: u64,
        node: &raft_node::NodeDescriptor,
        stores: Vec<StoreDescriptor>,
        region: RegionDescriptor,
    ) -> Result<(), PdError> {
        let mut s = self.0.borrow_mut();
        if s.fail_bootstrap {
            return Err(PdError::Other);
        }
        if s.bootstrapped {
            return Err(PdError::ClusterBootstrapped);
        }
        s.bootstrapped = true;
        s.bootstrap_calls.push((cluster_id, node.node_id, stores, region));
        Ok(())
    }
}

#[derive(Clone)]
struct MockChannel {
    store_id: u64,
    state: Rc<RefCell<AuthorityState>>,
}

impl StoreChannel for MockChannel {
    fn send_quit(&self) -> Result<(), ChannelError> {
        let mut s = self.state.borrow_mut();
        if s.fail_quit_for == Some(self.store_id) {
            return Err(ChannelError);
        }
        s.quit_log.push(self.store_id);
        Ok(())
    }
}

#[derive(Clone)]
struct MockTransport(Rc<RefCell<HashMap<u64, MockChannel>>>);

impl Transport<MockChannel> for MockTransport {
    fn add_sendch(&mut self, store_id: u64, ch: MockChannel) {
        self.0.borrow_mut().insert(store_id, ch);
    }

    fn remove_sendch(&mut self, store_id: u64) -> Option<MockChannel> {
        self.0.borrow_mut().remove(&store_id)
    }
}

struct MockHandle {
    store_id: u64,
    state: Rc<RefCell<AuthorityState>>,
}

impl WorkerHandle for MockHandle {
    fn join(self) -> Result<(), JoinError> {
        let mut s = self.state.borrow_mut();
        if s.fail_join_for == Some(self.store_id) {
            return Err(JoinError);
        }
        s.join_log.push(self.store_id);
        Ok(())
    }
}

#[derive(Default)]
struct EngineState {
    fail_reads: bool,
    ident: Option<StoreIdent>,
    region: Option<RegionDescriptor>,
    cleared: Vec<u64>,
}

#[derive(Clone, Default)]
struct MockEngine(Rc<RefCell<EngineState>>);

impl Engine for MockEngine {
    fn read_ident(&self) -> Result<Option<StoreIdent>, EngineError> {
        let s = self.0.borrow();
        if s.fail_reads {
            return Err(EngineError);
        }
        Ok(s.ident)
    }

    fn write_ident(&mut self, ident: StoreIdent) -> Result<(), EngineError> {
        self.0.borrow_mut().ident = Some(ident);
        Ok(())
    }

    fn write_first_region(&mut self, region: RegionDescriptor) -> Result<(), EngineError> {
        self.0.borrow_mut().region = Some(region);
        Ok(())
    }

    fn clear_region(&mut self, region_id: u64) -> Result<(), EngineError> {
        let mut s = self.0.borrow_mut();
        s.cleared.push(region_id);
        s.region = None;
        Ok(())
    }
}

struct MockWorker {
    store_id: u64,
    state: Rc<RefCell<AuthorityState>>,
}

impl StoreWorker<MockPd, MockTransport, MockEngine, MockChannel, MockHandle> for MockWorker {
    fn create(
        _meta: ClusterMeta,
        _cfg: StoreConfig,
        engine: MockEngine,
        _trans: MockTransport,
        pd_client: MockPd,
    ) -> Result<Self, WorkerError> {
        if pd_client.0.borrow().fail_worker_create {
            return Err(WorkerError);
        }
        let store_id = match engine.read_ident() {
            Ok(Some(ident)) => ident.store_id,
            _ => INVALID_ID,
        };
        Ok(MockWorker { store_id, state: pd_client.0 })
    }

    fn channel(&self) -> MockChannel {
        MockChannel { store_id: self.store_id, state: self.state.clone() }
    }

    fn launch(self) -> MockHandle {
        self.state.borrow_mut().launched.push(self.store_id);
        MockHandle { store_id: self.store_id, state: self.state }
    }
}

type TestNode = Node<MockPd, MockTransport, MockChannel, MockHandle>;

fn test_config(cluster_id: u64) -> Config {
    Config {
        cluster_id,
        addr: String::from("127.0.0.1:20160"),
        advertise_addr: String::new(),
        store_cfg: StoreConfig {
            raft_base_tick_ms: 100,
            raft_heartbeat_ticks: 2,
            raft_election_timeout_ticks: 10,
            capacity: 1024,
        },
    }
}

fn new_node(
    state: &Rc<RefCell<AuthorityState>>,
    cfg: &Config,
) -> (TestNode, Rc<RefCell<HashMap<u64, MockChannel>>>) {
    let channels = Rc::new(RefCell::new(HashMap::new()));
    let node = TestNode::new(cfg, MockPd(state.clone()), MockTransport(channels.clone()));
    (node, channels)
}

fn engine_with_ident(ident: StoreIdent) -> MockEngine {
    let e = MockEngine::default();
    e.0.borrow_mut().ident = Some(ident);
    e
}

#[test]
fn fresh_node_bootstraps_cluster() {
    let state = new_state();
    let cfg = test_config(1);
    let (mut node, channels) = new_node(&state, &cfg);
    let engine = MockEngine::default();

    node.start::<MockEngine, MockWorker>(vec![engine.clone()]).unwrap();

    // Node id 1 and store id 2 were allocated, region 3 with peer 4 seeded.
    assert_eq!(node.id(), 1);
    let s = state.borrow();
    assert_eq!(
        engine.0.borrow().ident,
        Some(StoreIdent { cluster_id: 1, node_id: 1, store_id: 2 })
    );
    let region = engine.0.borrow().region.unwrap();
    assert_eq!(region.region_id, 3);
    assert_eq!(region.peer.peer_id, 4);
    assert_eq!(region.peer.node_id, 1);
    assert_eq!(region.peer.store_id, 2);
    assert_eq!(s.bootstrap_calls.len(), 1);
    assert_eq!(s.bootstrap_calls[0].1, 1);
    assert_eq!(s.bootstrap_calls[0].2, vec![StoreDescriptor { node_id: 1, store_id: 2 }]);
    assert!(s.bootstrapped);
    // The node registered itself under the listen address and reported its
    // store.
    assert_eq!(s.put_nodes, vec![(1, 1, String::from("127.0.0.1:20160"))]);
    assert_eq!(s.put_stores, vec![(1, StoreDescriptor { node_id: 1, store_id: 2 })]);
    // One worker launched, its channel registered under its store id.
    assert_eq!(s.launched, vec![2]);
    assert!(channels.borrow().contains_key(&2));
}

#[test]
fn restart_recovers_identity_without_allocation() {
    let state = new_state();
    state.borrow_mut().bootstrapped = true;
    let cfg = test_config(1);
    let (mut node, channels) = new_node(&state, &cfg);
    let engine = engine_with_ident(StoreIdent { cluster_id: 1, node_id: 1, store_id: 2 });

    node.start::<MockEngine, MockWorker>(vec![engine.clone()]).unwrap();

    assert_eq!(node.id(), 1);
    let s = state.borrow();
    assert_eq!(s.alloc_count, 0);
    assert_eq!(s.bootstrap_calls.len(), 0);
    assert!(engine.0.borrow().region.is_none());
    assert!(engine.0.borrow().cleared.is_empty());
    assert_eq!(s.launched, vec![2]);
    assert!(channels.borrow().contains_key(&2));
}

#[test]
fn advertise_address_preferred_when_set() {
    let state = new_state();
    let mut cfg = test_config(1);
    cfg.advertise_addr = String::from("10.0.0.9:20160");
    let (mut node, _channels) = new_node(&state, &cfg);

    node.start::<MockEngine, MockWorker>(vec![MockEngine::default()]).unwrap();

    assert_eq!(state.borrow().put_nodes, vec![(1, 1, String::from("10.0.0.9:20160"))]);
}

#[test]
fn non_empty_node_on_unbootstrapped_cluster_fails() {
    let state = new_state();
    let cfg = test_config(1);
    let (mut node, _channels) = new_node(&state, &cfg);
    let engine = engine_with_ident(StoreIdent { cluster_id: 1, node_id: 1, store_id: 2 });

    let err = node.start::<MockEngine, MockWorker>(vec![engine]).unwrap_err();
    assert_eq!(err, NodeError::InconsistentBootstrapState { node_id: 1, cluster_id: 1 });
}

#[test]
fn cluster_mismatch_is_fatal_at_startup() {
    let state = new_state();
    state.borrow_mut().bootstrapped = true;
    let cfg = test_config(1);
    let (mut node, _channels) = new_node(&state, &cfg);
    let engine = engine_with_ident(StoreIdent { cluster_id: 9, node_id: 1, store_id: 2 });

    let err = node.start::<MockEngine, MockWorker>(vec![engine]).unwrap_err();
    assert_eq!(
        err,
        NodeError::ClusterMismatch {
            ident: StoreIdent { cluster_id: 9, node_id: 1, store_id: 2 },
            expected: 1,
        }
    );
}

#[test]
fn bootstrap_race_loser_clears_seed_region() {
    let state = new_state();
    let cfg = test_config(1);

    // Both orchestrators see an unbootstrapped cluster, then race.
    let (mut winner, _wc) = new_node(&state, &cfg);
    let (mut loser, lc) = new_node(&state, &cfg);
    let winner_engine = MockEngine::default();
    let loser_engine = MockEngine::default();

    winner.start::<MockEngine, MockWorker>(vec![winner_engine.clone()]).unwrap();
    assert_eq!(state.borrow().bootstrap_calls.len(), 1);

    // The loser's read of the bootstrap state is stale: it still sees the
    // cluster as uninitialized, attempts the bootstrap path, and is told
    // the cluster is already bootstrapped: it must clear its speculative
    // region and finish startup normally.
    state.borrow_mut().report_bootstrapped = Some(false);
    loser.start::<MockEngine, MockWorker>(vec![loser_engine.clone()]).unwrap();
    state.borrow_mut().report_bootstrapped = None;

    // Exactly one bootstrap succeeded; the winner's region is intact and
    // the loser left no residual region state.
    let s = state.borrow();
    assert_eq!(s.bootstrap_calls.len(), 1);
    assert!(winner_engine.0.borrow().region.is_some());
    assert!(winner_engine.0.borrow().cleared.is_empty());
    // The loser allocated node 5, store 6, region 7 and peer 8.
    assert_eq!(loser_engine.0.borrow().cleared, vec![7]);
    assert!(loser_engine.0.borrow().region.is_none());
    // Both nodes run their workers.
    assert_eq!(s.launched.len(), 2);
    assert!(lc.borrow().len() == 1);
    drop(s);

    // Repeating the loser's path is idempotent: a restart of the loser
    // recovers its identity, skips the bootstrap path, and neither
    // allocates nor clears anything further.
    let allocs_before = state.borrow().alloc_count;
    let (mut restarted, _rc) = new_node(&state, &cfg);
    restarted.start::<MockEngine, MockWorker>(vec![loser_engine.clone()]).unwrap();
    assert_eq!(restarted.id(), 5);
    assert_eq!(state.borrow().alloc_count, allocs_before);
    assert_eq!(state.borrow().bootstrap_calls.len(), 1);
    assert_eq!(loser_engine.0.borrow().cleared, vec![7]);
}

#[test]
fn other_bootstrap_errors_are_fatal() {
    let state = new_state();
    state.borrow_mut().fail_bootstrap = true;
    let cfg = test_config(1);
    let (mut node, _channels) = new_node(&state, &cfg);
    let engine = MockEngine::default();

    let err = node.start::<MockEngine, MockWorker>(vec![engine.clone()]).unwrap_err();
    assert_eq!(err, NodeError::Authority { err: PdError::Other });
    // A fatal bootstrap error is not the race path: nothing was cleared.
    assert!(engine.0.borrow().cleared.is_empty());
}

#[test]
fn two_fresh_engines_get_distinct_stores() {
    let state = new_state();
    let cfg = test_config(1);
    let (mut node, channels) = new_node(&state, &cfg);
    let e1 = MockEngine::default();
    let e2 = MockEngine::default();

    node.start::<MockEngine, MockWorker>(vec![e1.clone(), e2.clone()]).unwrap();

    assert_eq!(node.id(), 1);
    let id1 = e1.0.borrow().ident.unwrap();
    let id2 = e2.0.borrow().ident.unwrap();
    assert_eq!(id1.node_id, 1);
    assert_eq!(id2.node_id, 1);
    assert_ne!(id1.store_id, id2.store_id);
    assert_eq!(channels.borrow().len(), 2);
    assert_eq!(state.borrow().launched.len(), 2);
}

#[test]
fn stop_store_unknown_and_stop_twice() {
    let state = new_state();
    state.borrow_mut().bootstrapped = true;
    let cfg = test_config(1);
    let (mut node, channels) = new_node(&state, &cfg);
    let engine = engine_with_ident(StoreIdent { cluster_id: 1, node_id: 1, store_id: 2 });

    // Never started: UnknownStore.
    assert_eq!(node.stop_store(7), Err(NodeError::UnknownStore { store_id: 7 }));

    node.start::<MockEngine, MockWorker>(vec![engine]).unwrap();
    assert!(channels.borrow().contains_key(&2));

    // Started once: the first stop succeeds and quits and joins the
    // worker; the second is UnknownStore again.
    assert_eq!(node.stop_store(2), Ok(()));
    assert!(!channels.borrow().contains_key(&2));
    assert_eq!(state.borrow().quit_log, vec![2]);
    assert_eq!(state.borrow().join_log, vec![2]);
    assert_eq!(node.stop_store(2), Err(NodeError::UnknownStore { store_id: 2 }));
}

#[test]
fn duplicate_store_is_refused() {
    let state = new_state();
    let cfg = test_config(1);
    let (mut node, _channels) = new_node(&state, &cfg);
    let meta = ClusterMeta { cluster_id: 1, max_peer_count: 3 };
    let e1 = engine_with_ident(StoreIdent { cluster_id: 1, node_id: 1, store_id: 2 });
    let e2 = engine_with_ident(StoreIdent { cluster_id: 1, node_id: 1, store_id: 2 });

    node.start_store::<MockEngine, MockWorker>(meta, 2, e1).unwrap();
    let err = node.start_store::<MockEngine, MockWorker>(meta, 2, e2).unwrap_err();
    assert_eq!(err, NodeError::DuplicateStore { store_id: 2 });
}

#[test]
fn worker_gone_out_of_band() {
    let state = new_state();
    let cfg = test_config(1);
    let (mut node, channels) = new_node(&state, &cfg);

    // A channel is registered but no worker handle is supervised: the
    // worker terminated out of band.
    channels.borrow_mut().insert(9, MockChannel { store_id: 9, state: state.clone() });
    assert_eq!(node.stop_store(9), Err(NodeError::WorkerAlreadyGone { store_id: 9 }));
    // The stale channel was deregistered on the way.
    assert!(!channels.borrow().contains_key(&9));
}

#[test]
fn shutdown_stops_every_store_despite_failures() {
    let state = new_state();
    let cfg = test_config(1);
    let (mut node, channels) = new_node(&state, &cfg);
    let engines: Vec<MockEngine> = (0..3).map(|_| MockEngine::default()).collect();

    node.start::<MockEngine, MockWorker>(engines).unwrap();
    assert_eq!(channels.borrow().len(), 3);
    let ids: Vec<u64> = channels.borrow().keys().cloned().collect();

    // One store's terminate message cannot be delivered; the other two
    // must still be stopped, and every entry must be gone afterwards.
    state.borrow_mut().fail_quit_for = Some(ids[0]);
    node.shutdown();

    assert_eq!(channels.borrow().len(), 0);
    assert_eq!(state.borrow().quit_log.len(), 2);
    assert_eq!(state.borrow().join_log.len(), 2);
    for id in ids {
        assert_eq!(node.stop_store(id), Err(NodeError::UnknownStore { store_id: id }));
    }
}

#[test]
fn shutdown_leaves_foreign_channels_alone() {
    let state = new_state();
    let cfg = test_config(1);
    let (mut node, channels) = new_node(&state, &cfg);
    let engine = MockEngine::default();

    node.start::<MockEngine, MockWorker>(vec![engine]).unwrap();
    // A registration the orchestrator does not supervise.
    channels.borrow_mut().insert(99, MockChannel { store_id: 99, state: state.clone() });

    node.shutdown();

    assert_eq!(channels.borrow().len(), 1);
    assert!(channels.borrow().contains_key(&99));
}

#[test]
fn engine_read_failure_is_fatal() {
    let state = new_state();
    let cfg = test_config(1);
    let (mut node, _channels) = new_node(&state, &cfg);
    let engine = MockEngine::default();
    engine.0.borrow_mut().fail_reads = true;

    let err = node.start::<MockEngine, MockWorker>(vec![engine]).unwrap_err();
    assert_eq!(err, NodeError::Engine);
}

#[test]
fn worker_create_failure_leaves_nothing_behind() {
    let state = new_state();
    state.borrow_mut().fail_worker_create = true;
    let cfg = test_config(1);
    let (mut node, channels) = new_node(&state, &cfg);
    let meta = ClusterMeta { cluster_id: 1, max_peer_count: 3 };
    let engine = engine_with_ident(StoreIdent { cluster_id: 1, node_id: 1, store_id: 2 });

    let err = node.start_store::<MockEngine, MockWorker>(meta, 2, engine).unwrap_err();
    assert_eq!(err, NodeError::WorkerStart { store_id: 2 });
    // Neither a channel nor a handle was recorded.
    assert!(channels.borrow().is_empty());
    assert_eq!(node.stop_store(2), Err(NodeError::UnknownStore { store_id: 2 }));
}

#[test]
fn quit_delivery_failure_still_removes_the_store() {
    let state = new_state();
    state.borrow_mut().bootstrapped = true;
    let cfg = test_config(1);
    let (mut node, channels) = new_node(&state, &cfg);
    let engine = engine_with_ident(StoreIdent { cluster_id: 1, node_id: 1, store_id: 2 });

    node.start::<MockEngine, MockWorker>(vec![engine]).unwrap();
    state.borrow_mut().fail_quit_for = Some(2);

    let err = node.stop_store(2).unwrap_err();
    assert_eq!(err, NodeError::StoreNotify { store_id: 2 });
    // Channel and handle are gone even though the worker was not notified.
    assert!(!channels.borrow().contains_key(&2));
    assert_eq!(node.stop_store(2), Err(NodeError::UnknownStore { store_id: 2 }));
}

#[test]
fn join_failure_is_reported_not_swallowed() {
    let state = new_state();
    state.borrow_mut().bootstrapped = true;
    let cfg = test_config(1);
    let (mut node, channels) = new_node(&state, &cfg);
    let engine = engine_with_ident(StoreIdent { cluster_id: 1, node_id: 1, store_id: 2 });

    node.start::<MockEngine, MockWorker>(vec![engine]).unwrap();
    state.borrow_mut().fail_join_for = Some(2);

    let err = node.stop_store(2).unwrap_err();
    assert_eq!(err, NodeError::WorkerJoin { store_id: 2 });
    // The quit message went out and the entries are gone.
    assert_eq!(state.borrow().quit_log, vec![2]);
    assert!(!channels.borrow().contains_key(&2));
}
