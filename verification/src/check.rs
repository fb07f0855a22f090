//! Identity recovery: reading the node's identity back out of the records
//! persisted in its engines.

use vstd::prelude::*;
use crate::errors::NodeError;
use crate::ident::StoreIdent;
use crate::ident::INVALID_ID;

verus! {

/// A persisted record conforms to this node's configuration: it names the
/// configured cluster and carries no INVALID_ID identifier.
pub open spec fn record_conforms(cluster_id: u64, id: StoreIdent) -> bool {
    &&& id.cluster_id == cluster_id
    &&& id.node_id != INVALID_ID
    &&& id.store_id != INVALID_ID
}

/// Every present record conforms.
pub open spec fn all_conform(cluster_id: u64, idents: Seq<Option<StoreIdent>>) -> bool {
    forall|i: int|
        0 <= i < idents.len() && idents[i] is Some ==> record_conforms(
            cluster_id,
            idents[i]->0,
        )
}

/// Every present record carries a valid (non-INVALID_ID) node and store
/// identifier, whatever cluster it names.
pub open spec fn all_ids_valid(idents: Seq<Option<StoreIdent>>) -> bool {
    forall|i: int|
        0 <= i < idents.len() && idents[i] is Some ==> idents[i]->0.node_id != INVALID_ID
            && idents[i]->0.store_id != INVALID_ID
}

/// All present records agree on one node identifier, and, when `node_id` is
/// already fixed, agree with it.
pub open spec fn node_ids_agree_from(idents: Seq<Option<StoreIdent>>, node_id: u64) -> bool {
    &&& forall|i: int, j: int|
        0 <= i < idents.len() && 0 <= j < idents.len() && idents[i] is Some && idents[j] is Some
            ==> idents[i]->0.node_id == idents[j]->0.node_id
    &&& node_id != INVALID_ID ==> forall|i: int|
        0 <= i < idents.len() && idents[i] is Some ==> idents[i]->0.node_id == node_id
}

/// All present records agree on one node identifier.
pub open spec fn node_ids_agree(idents: Seq<Option<StoreIdent>>) -> bool {
    node_ids_agree_from(idents, INVALID_ID)
}

/// The result of scanning the remaining records, having already fixed
/// `node_id` (INVALID_ID while no record has been seen) and accumulated the
/// store identifiers `acc` of the engines scanned so far.  Records are
/// checked in order; the first offending record decides the error, and a
/// record's own corruption is reported before any comparison with other
/// records.
pub open spec fn check_records(
    cluster_id: u64,
    idents: Seq<Option<StoreIdent>>,
    node_id: u64,
    acc: Seq<u64>,
) -> Result<(u64, Seq<u64>), NodeError>
    decreases idents.len(),
{
    if idents.len() == 0 {
        Ok((node_id, acc))
    } else {
        match idents[0] {
            None => check_records(cluster_id, idents.drop_first(), node_id, acc.push(INVALID_ID)),
            Some(id) => {
                if id.cluster_id != cluster_id {
                    Err(NodeError::ClusterMismatch { ident: id, expected: cluster_id })
                } else if id.node_id == INVALID_ID || id.store_id == INVALID_ID {
                    Err(NodeError::CorruptIdentity { ident: id })
                } else if node_id != INVALID_ID && id.node_id != node_id {
                    Err(NodeError::NodeIdentityMismatch { ident: id, expected: node_id })
                } else {
                    check_records(
                        cluster_id,
                        idents.drop_first(),
                        if node_id == INVALID_ID {
                            id.node_id
                        } else {
                            node_id
                        },
                        acc.push(id.store_id),
                    )
                }
            },
        }
    }
}

/// What identity recovery returns for the given persisted records: the
/// recovered node identifier (INVALID_ID when no engine had a record) and,
/// per engine, its recovered store identifier (INVALID_ID when that engine
/// had none), or the fault of the first offending record.
pub open spec fn spec_check_stores(cluster_id: u64, idents: Seq<Option<StoreIdent>>) -> Result<
    (u64, Seq<u64>),
    NodeError,
> {
    check_records(cluster_id, idents, INVALID_ID, Seq::empty())
}

/// Recover this node's identity from the records persisted in its engines,
/// one record per engine in engine order (`None` for an engine that has no
/// record yet).
///
/// Returns the recovered node identifier and one store identifier per
/// engine, exactly as [`spec_check_stores`] describes; in particular an
/// engine without a record maps to INVALID_ID, a record whose cluster
/// identifier differs from `cluster_id` is a `ClusterMismatch`, a record
/// carrying an INVALID_ID identifier is a `CorruptIdentity` in itself, and
/// records with differing node identifiers are a `NodeIdentityMismatch`.
pub fn check_stores(cluster_id: u64, idents: &Vec<Option<StoreIdent>>) -> (r: Result<
    (u64, Vec<u64>),
    NodeError,
>)
    ensures
        (r matches Ok(p) ==> spec_check_stores(cluster_id, idents@) == Ok::<
            (u64, Seq<u64>),
            NodeError,
        >((p.0, p.1@))),
        (r matches Err(e) ==> spec_check_stores(cluster_id, idents@) == Err::<
            (u64, Seq<u64>),
            NodeError,
        >(e)),
{
    let mut stores: Vec<u64> = Vec::new();
    let mut node_id: u64 = INVALID_ID;
    let mut i: usize = 0;
    proof {
        assert(idents@.skip(0) =~= idents@);
    }
    while i < idents.len()
        invariant
            0 <= i <= idents@.len(),
            spec_check_stores(cluster_id, idents@) == check_records(
                cluster_id,
                idents@.skip(i as int),
                node_id,
                stores@,
            ),
        decreases idents@.len() - i,
    {
        proof {
            assert(idents@.skip(i as int).drop_first() =~= idents@.skip(i as int + 1));
            assert(idents@.skip(i as int)[0] == idents@[i as int]);
        }
        match idents[i] {
            None => {
                stores.push(INVALID_ID);
            },
            Some(id) => {
                if id.cluster_id != cluster_id {
                    return Err(NodeError::ClusterMismatch { ident: id, expected: cluster_id });
                }
                if id.node_id == INVALID_ID || id.store_id == INVALID_ID {
                    return Err(NodeError::CorruptIdentity { ident: id });
                }
                if node_id != INVALID_ID && id.node_id != node_id {
                    return Err(NodeError::NodeIdentityMismatch { ident: id, expected: node_id });
                }
                if node_id == INVALID_ID {
                    node_id = id.node_id;
                }
                stores.push(id.store_id);
            },
        }
        i += 1;
    }
    proof {
        assert(idents@.skip(i as int) =~= Seq::<Option<StoreIdent>>::empty());
    }
    Ok((node_id, stores))
}

/// The store identifier an engine recovers from its own record: the
/// persisted one, or INVALID_ID when no record is present.
pub open spec fn recovered_store_id(o: Option<StoreIdent>) -> u64 {
    match o {
        None => INVALID_ID,
        Some(id) => id.store_id,
    }
}

/// The per-engine store identifiers recovered from the given records.
pub open spec fn recovered_store_ids(idents: Seq<Option<StoreIdent>>) -> Seq<u64> {
    Seq::new(idents.len(), |k: int| recovered_store_id(idents[k]))
}

/// On success, the scan keeps the identifiers accumulated so far and
/// appends each remaining engine's recovered store identifier; the node
/// identifier it returns is the one every present record carries
/// (INVALID_ID exactly when none was fixed and none is present).
pub proof fn lemma_check_records_values(
    cluster_id: u64,
    idents: Seq<Option<StoreIdent>>,
    node_id: u64,
    acc: Seq<u64>,
)
    ensures
        (check_records(cluster_id, idents, node_id, acc) matches Ok(p) ==> ({
            &&& p.1 == acc + recovered_store_ids(idents)
            &&& (node_id != INVALID_ID ==> p.0 == node_id)
            &&& (forall|k: int|
                0 <= k < idents.len() && idents[k] is Some ==> p.0 == idents[k]->0.node_id)
            &&& (p.0 == INVALID_ID <==> (node_id == INVALID_ID && forall|k: int|
                0 <= k < idents.len() ==> idents[k] is None))
        })),
    decreases idents.len(),
{
    if idents.len() == 0 {
        if check_records(cluster_id, idents, node_id, acc) is Ok {
            assert(acc + recovered_store_ids(idents) =~= acc);
        }
    } else {
        let rest = idents.drop_first();
        assert(forall|k: int| 0 <= k < rest.len() ==> rest[k] == idents[k + 1]);
        match idents[0] {
            None => {
                lemma_check_records_values(cluster_id, rest, node_id, acc.push(INVALID_ID));
                assert(acc.push(INVALID_ID) + recovered_store_ids(rest) =~= acc
                    + recovered_store_ids(idents));
                if check_records(cluster_id, idents, node_id, acc) is Ok {
                    let p = check_records(cluster_id, idents, node_id, acc)->Ok_0;
                    assert forall|k: int|
                        0 <= k < idents.len() && idents[k] is Some implies p.0
                        == idents[k]->0.node_id by {
                        assert(rest[k - 1] == idents[k]);
                    }
                    if p.0 == INVALID_ID {
                        assert forall|k: int| 0 <= k < idents.len() implies idents[k] is None by {
                            if k > 0 {
                                assert(rest[k - 1] == idents[k]);
                            }
                        }
                    }
                }
            },
            Some(id) => {
                if id.cluster_id == cluster_id && !(node_id != INVALID_ID && id.node_id
                    != node_id) && !(id.node_id == INVALID_ID || id.store_id == INVALID_ID) {
                    let nid = if node_id == INVALID_ID {
                        id.node_id
                    } else {
                        node_id
                    };
                    lemma_check_records_values(cluster_id, rest, nid, acc.push(id.store_id));
                    assert(acc.push(id.store_id) + recovered_store_ids(rest) =~= acc
                        + recovered_store_ids(idents));
                    if check_records(cluster_id, idents, node_id, acc) is Ok {
                        let p = check_records(cluster_id, idents, node_id, acc)->Ok_0;
                        assert(p.0 == nid);
                        assert forall|k: int|
                            0 <= k < idents.len() && idents[k] is Some implies p.0
                            == idents[k]->0.node_id by {
                            if k > 0 {
                                assert(rest[k - 1] == idents[k]);
                            }
                        }
                    }
                }
            },
        }
    }
}

/// The scan succeeds exactly when every remaining present record conforms
/// and the records agree with each other and with the node identifier fixed
/// so far.
pub proof fn lemma_check_records_ok_iff(
    cluster_id: u64,
    idents: Seq<Option<StoreIdent>>,
    node_id: u64,
    acc: Seq<u64>,
)
    ensures
        check_records(cluster_id, idents, node_id, acc) is Ok <==> (all_conform(cluster_id, idents)
            && node_ids_agree_from(idents, node_id)),
    decreases idents.len(),
{
    if idents.len() == 0 {
        assert(all_conform(cluster_id, idents));
        assert(node_ids_agree_from(idents, node_id));
    } else {
        let rest = idents.drop_first();
        assert(forall|k: int| 0 <= k < rest.len() ==> rest[k] == idents[k + 1]);
        match idents[0] {
            None => {
                lemma_check_records_ok_iff(cluster_id, rest, node_id, acc.push(INVALID_ID));
                assert(all_conform(cluster_id, rest) ==> all_conform(cluster_id, idents)) by {
                    if all_conform(cluster_id, rest) {
                        assert forall|k: int|
                            0 <= k < idents.len() && idents[k] is Some implies record_conforms(
                            cluster_id,
                            idents[k]->0,
                        ) by {
                            assert(rest[k - 1] == idents[k]);
                        }
                    }
                }
                assert(node_ids_agree_from(rest, node_id) ==> node_ids_agree_from(
                    idents,
                    node_id,
                )) by {
                    if node_ids_agree_from(rest, node_id) {
                        assert forall|i: int, j: int|
                            0 <= i < idents.len() && 0 <= j < idents.len() && idents[i] is Some
                                && idents[j] is Some implies idents[i]->0.node_id
                            == idents[j]->0.node_id by {
                            assert(rest[i - 1] == idents[i]);
                            assert(rest[j - 1] == idents[j]);
                        }
                        if node_id != INVALID_ID {
                            assert forall|i: int|
                                0 <= i < idents.len() && idents[i] is Some implies idents[i]
                                ->0.node_id == node_id by {
                                assert(rest[i - 1] == idents[i]);
                            }
                        }
                    }
                }
            },
            Some(id) => {
                if id.cluster_id != cluster_id {
                    assert(!record_conforms(cluster_id, idents[0]->0));
                    assert(!all_conform(cluster_id, idents));
                } else if id.node_id == INVALID_ID || id.store_id == INVALID_ID {
                    assert(!record_conforms(cluster_id, idents[0]->0));
                    assert(!all_conform(cluster_id, idents));
                } else if node_id != INVALID_ID && id.node_id != node_id {
                    assert(!node_ids_agree_from(idents, node_id));
                } else {
                    let nid = if node_id == INVALID_ID {
                        id.node_id
                    } else {
                        node_id
                    };
                    lemma_check_records_ok_iff(cluster_id, rest, nid, acc.push(id.store_id));
                    assert((all_conform(cluster_id, rest) && node_ids_agree_from(rest, nid)) ==> (
                    all_conform(cluster_id, idents) && node_ids_agree_from(idents, node_id))) by {
                        if all_conform(cluster_id, rest) && node_ids_agree_from(rest, nid) {
                            assert forall|k: int|
                                0 <= k < idents.len() && idents[k] is Some implies record_conforms(
                                cluster_id,
                                idents[k]->0,
                            ) by {
                                if k > 0 {
                                    assert(rest[k - 1] == idents[k]);
                                }
                            }
                            assert forall|i: int, j: int|
                                0 <= i < idents.len() && 0 <= j < idents.len() && idents[i] is Some
                                    && idents[j] is Some implies idents[i]->0.node_id
                                == idents[j]->0.node_id by {
                                if i > 0 {
                                    assert(rest[i - 1] == idents[i]);
                                    assert(idents[i]->0.node_id == nid);
                                }
                                if j > 0 {
                                    assert(rest[j - 1] == idents[j]);
                                    assert(idents[j]->0.node_id == nid);
                                }
                            }
                        }
                    }
                    assert((all_conform(cluster_id, idents) && node_ids_agree_from(
                        idents,
                        node_id,
                    )) ==> (all_conform(cluster_id, rest) && node_ids_agree_from(rest, nid))) by {
                        if all_conform(cluster_id, idents) && node_ids_agree_from(idents, node_id) {
                            assert forall|k: int|
                                0 <= k < rest.len() && rest[k] is Some implies record_conforms(
                                cluster_id,
                                rest[k]->0,
                            ) by {
                                assert(rest[k] == idents[k + 1]);
                            }
                            assert forall|i: int, j: int|
                                0 <= i < rest.len() && 0 <= j < rest.len() && rest[i] is Some
                                    && rest[j] is Some implies rest[i]->0.node_id
                                == rest[j]->0.node_id by {
                                assert(rest[i] == idents[i + 1]);
                                assert(rest[j] == idents[j + 1]);
                            }
                            assert forall|i: int|
                                0 <= i < rest.len() && rest[i] is Some implies rest[i]->0.node_id
                                == nid by {
                                assert(rest[i] == idents[i + 1]);
                                assert(idents[i + 1]->0.node_id == idents[0]->0.node_id);
                            }
                        }
                    }
                }
            },
        }
    }
}

/// When every present record conforms, the scan can only succeed or stop on
/// a node-identity mismatch.
proof fn lemma_check_records_conform_err(
    cluster_id: u64,
    idents: Seq<Option<StoreIdent>>,
    node_id: u64,
    acc: Seq<u64>,
)
    requires
        all_conform(cluster_id, idents),
    ensures
        check_records(cluster_id, idents, node_id, acc) is Ok || (check_records(
            cluster_id,
            idents,
            node_id,
            acc,
        ) matches Err(e) && e matches (NodeError::NodeIdentityMismatch { .. })),
    decreases idents.len(),
{
    if idents.len() > 0 {
        let rest = idents.drop_first();
        assert(forall|k: int| 0 <= k < rest.len() ==> rest[k] == idents[k + 1]);
        assert(all_conform(cluster_id, rest));
        match idents[0] {
            None => {
                lemma_check_records_conform_err(cluster_id, rest, node_id, acc.push(INVALID_ID));
            },
            Some(id) => {
                assert(record_conforms(cluster_id, idents[0]->0));
                if !(node_id != INVALID_ID && id.node_id != node_id) {
                    lemma_check_records_conform_err(
                        cluster_id,
                        rest,
                        if node_id == INVALID_ID {
                            id.node_id
                        } else {
                            node_id
                        },
                        acc.push(id.store_id),
                    );
                }
            },
        }
    }
}

/// When every present record carries valid identifiers and the records
/// agree with the node identifier fixed so far, the scan can only succeed
/// or stop on a cluster mismatch.
proof fn lemma_check_records_valid_err(
    cluster_id: u64,
    idents: Seq<Option<StoreIdent>>,
    node_id: u64,
    acc: Seq<u64>,
)
    requires
        all_ids_valid(idents),
        node_ids_agree_from(idents, node_id),
    ensures
        check_records(cluster_id, idents, node_id, acc) is Ok || (check_records(
            cluster_id,
            idents,
            node_id,
            acc,
        ) matches Err(e) && e matches (NodeError::ClusterMismatch { .. })),
    decreases idents.len(),
{
    if idents.len() > 0 {
        let rest = idents.drop_first();
        assert(forall|k: int| 0 <= k < rest.len() ==> rest[k] == idents[k + 1]);
        assert(all_ids_valid(rest));
        match idents[0] {
            None => {
                assert(node_ids_agree_from(rest, node_id));
                lemma_check_records_valid_err(cluster_id, rest, node_id, acc.push(INVALID_ID));
            },
            Some(id) => {
                assert(id.node_id != INVALID_ID && id.store_id != INVALID_ID);
                if id.cluster_id == cluster_id {
                    assert(!(node_id != INVALID_ID && id.node_id != node_id));
                    let nid = if node_id == INVALID_ID {
                        id.node_id
                    } else {
                        node_id
                    };
                    assert(node_ids_agree_from(rest, nid)) by {
                        assert forall|i: int|
                            0 <= i < rest.len() && rest[i] is Some implies rest[i]->0.node_id
                            == nid by {
                            assert(rest[i] == idents[i + 1]);
                            assert(idents[i + 1]->0.node_id == idents[0]->0.node_id);
                        }
                    }
                    lemma_check_records_valid_err(cluster_id, rest, nid, acc.push(id.store_id));
                }
            },
        }
    }
}

/// Identity recovery succeeds exactly when every persisted record names the
/// configured cluster, carries valid identifiers, and all records agree on
/// one node identifier.
pub proof fn lemma_check_stores_ok_iff(cluster_id: u64, idents: Seq<Option<StoreIdent>>)
    ensures
        spec_check_stores(cluster_id, idents) is Ok <==> (all_conform(cluster_id, idents)
            && node_ids_agree(idents)),
{
    lemma_check_records_ok_iff(cluster_id, idents, INVALID_ID, Seq::empty());
}

/// On success, identity recovery returns one store identifier per engine:
/// INVALID_ID for an engine without a record, the persisted identifier for
/// an engine with one; the recovered node identifier is the one every
/// present record carries, and is INVALID_ID exactly when no engine had a
/// record.
pub proof fn lemma_check_stores_recovered(cluster_id: u64, idents: Seq<Option<StoreIdent>>)
    ensures
        (spec_check_stores(cluster_id, idents) matches Ok(p) ==> ({
            &&& p.1.len() == idents.len()
            &&& (forall|k: int|
                0 <= k < idents.len() && idents[k] is None ==> p.1[k] == INVALID_ID)
            &&& (forall|k: int|
                0 <= k < idents.len() && idents[k] is Some ==> p.1[k] == idents[k]->0.store_id
                    && p.0 == idents[k]->0.node_id)
            &&& (p.0 == INVALID_ID <==> forall|k: int| 0 <= k < idents.len() ==> idents[k] is None)
        })),
{
    lemma_check_records_values(cluster_id, idents, INVALID_ID, Seq::empty());
    if spec_check_stores(cluster_id, idents) is Ok {
        let p = spec_check_stores(cluster_id, idents)->Ok_0;
        assert(p.1 =~= recovered_store_ids(idents));
        assert(forall|k: int|
            0 <= k < idents.len() ==> p.1[k] == recovered_store_id(idents[k]));
    }
}

/// A node whose engines carry no record at all recovers an INVALID_ID node
/// identifier and an INVALID_ID store identifier for every engine.
pub proof fn lemma_check_stores_fresh(cluster_id: u64, idents: Seq<Option<StoreIdent>>)
    requires
        forall|i: int| 0 <= i < idents.len() ==> idents[i] is None,
    ensures
        (spec_check_stores(cluster_id, idents) matches Ok(p) && p.0 == INVALID_ID && p.1.len()
            == idents.len() && (forall|i: int| 0 <= i < idents.len() ==> p.1[i] == INVALID_ID)),
{
    lemma_check_stores_ok_iff(cluster_id, idents);
    lemma_check_stores_recovered(cluster_id, idents);
}

/// Two engines on the same node with differing persisted node identifiers
/// are always rejected as a node-identity mismatch, wherever the two stand
/// in engine order, provided every record conforms in itself.
pub proof fn lemma_check_stores_node_mismatch(
    cluster_id: u64,
    idents: Seq<Option<StoreIdent>>,
    i: int,
    j: int,
)
    requires
        all_conform(cluster_id, idents),
        0 <= i < idents.len(),
        0 <= j < idents.len(),
        idents[i] is Some,
        idents[j] is Some,
        idents[i]->0.node_id != idents[j]->0.node_id,
    ensures
        (spec_check_stores(cluster_id, idents) matches Err(e) && e matches (
        NodeError::NodeIdentityMismatch { .. })),
{
    lemma_check_records_conform_err(cluster_id, idents, INVALID_ID, Seq::empty());
    lemma_check_stores_ok_iff(cluster_id, idents);
    assert(!node_ids_agree(idents));
}

/// An engine whose record names a different cluster is always rejected as a
/// cluster mismatch, provided every record carries valid identifiers and
/// the records agree on one node identifier.
pub proof fn lemma_check_stores_cluster_mismatch(
    cluster_id: u64,
    idents: Seq<Option<StoreIdent>>,
    i: int,
)
    requires
        all_ids_valid(idents),
        node_ids_agree(idents),
        0 <= i < idents.len(),
        idents[i] is Some,
        idents[i]->0.cluster_id != cluster_id,
    ensures
        (spec_check_stores(cluster_id, idents) matches Err(e) && e matches (
        NodeError::ClusterMismatch { .. })),
{
    lemma_check_records_valid_err(cluster_id, idents, INVALID_ID, Seq::empty());
    lemma_check_stores_ok_iff(cluster_id, idents);
    assert(!record_conforms(cluster_id, idents[i]->0));
    assert(!all_conform(cluster_id, idents));
}

} // verus!
