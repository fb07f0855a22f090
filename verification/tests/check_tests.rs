//! Identity recovery and decision-function tests.

use raft_node::check_stores;
use raft_node::plan_bootstrap_outcome;
use raft_node::plan_node_id;
use raft_node::BootstrapPlan;
use raft_node::NodeError;
use raft_node::NodeIdPlan;
use raft_node::PdError;
use raft_node::StoreIdent;
use raft_node::INVALID_ID;

fn ident(cluster_id: u64, node_id: u64, store_id: u64) -> StoreIdent {
    StoreIdent { cluster_id, node_id, store_id }
}

#[test]
fn check_stores_fresh_engines() {
    let idents: Vec<Option<StoreIdent>> = vec![None, None, None];
    let (node_id, store_ids) = check_stores(1, &idents).unwrap();
    assert_eq!(node_id, INVALID_ID);
    assert_eq!(store_ids, vec![INVALID_ID, INVALID_ID, INVALID_ID]);
}

#[test]
fn check_stores_recovers_persisted_ids() {
    let idents = vec![Some(ident(1, 4, 10)), None, Some(ident(1, 4, 11))];
    let (node_id, store_ids) = check_stores(1, &idents).unwrap();
    assert_eq!(node_id, 4);
    assert_eq!(store_ids, vec![10, INVALID_ID, 11]);
}

#[test]
fn check_stores_cluster_mismatch() {
    let idents = vec![Some(ident(1, 4, 10)), Some(ident(2, 4, 11))];
    let err = check_stores(1, &idents).unwrap_err();
    assert_eq!(err, NodeError::ClusterMismatch { ident: ident(2, 4, 11), expected: 1 });
}

#[test]
fn check_stores_node_mismatch_both_orders() {
    let a = ident(1, 4, 10);
    let b = ident(1, 5, 11);
    let err = check_stores(1, &vec![Some(a), Some(b)]).unwrap_err();
    assert!(matches!(err, NodeError::NodeIdentityMismatch { .. }));
    let err = check_stores(1, &vec![Some(b), Some(a)]).unwrap_err();
    assert!(matches!(err, NodeError::NodeIdentityMismatch { .. }));
}

#[test]
fn check_stores_corrupt_identity() {
    let bad_store = ident(1, 4, INVALID_ID);
    let err = check_stores(1, &vec![Some(bad_store)]).unwrap_err();
    assert_eq!(err, NodeError::CorruptIdentity { ident: bad_store });

    let bad_node = ident(1, INVALID_ID, 10);
    let err = check_stores(1, &vec![Some(bad_node)]).unwrap_err();
    assert_eq!(err, NodeError::CorruptIdentity { ident: bad_node });
}

#[test]
fn corrupt_record_reported_before_node_comparison() {
    // A record carrying an INVALID_ID identifier is malformed in itself,
    // wherever it stands in engine order and whatever node id was already
    // fixed by an earlier engine.
    let bad = ident(1, INVALID_ID, 11);
    let err = check_stores(1, &vec![Some(ident(1, 4, 10)), Some(bad)]).unwrap_err();
    assert_eq!(err, NodeError::CorruptIdentity { ident: bad });

    let bad_store = ident(1, 5, INVALID_ID);
    let err = check_stores(1, &vec![Some(ident(1, 4, 10)), Some(bad_store)]).unwrap_err();
    assert_eq!(err, NodeError::CorruptIdentity { ident: bad_store });
}

#[test]
fn check_stores_empty_engine_list() {
    let idents: Vec<Option<StoreIdent>> = Vec::new();
    let (node_id, store_ids) = check_stores(1, &idents).unwrap();
    assert_eq!(node_id, INVALID_ID);
    assert!(store_ids.is_empty());
}

#[test]
fn plan_node_id_cases() {
    assert_eq!(plan_node_id(INVALID_ID, false, 1), Ok(NodeIdPlan::Allocate));
    assert_eq!(plan_node_id(INVALID_ID, true, 1), Ok(NodeIdPlan::Allocate));
    assert_eq!(plan_node_id(4, true, 1), Ok(NodeIdPlan::Keep(4)));
    assert_eq!(
        plan_node_id(4, false, 1),
        Err(NodeError::InconsistentBootstrapState { node_id: 4, cluster_id: 1 })
    );
}

#[test]
fn plan_bootstrap_outcome_cases() {
    assert_eq!(plan_bootstrap_outcome(Ok(())), BootstrapPlan::Proceed);
    assert_eq!(
        plan_bootstrap_outcome(Err(PdError::ClusterBootstrapped)),
        BootstrapPlan::ClearAndContinue
    );
    assert_eq!(plan_bootstrap_outcome(Err(PdError::Other)), BootstrapPlan::Fatal(PdError::Other));
}
