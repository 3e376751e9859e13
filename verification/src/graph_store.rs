//! Trusted boundary around the petgraph-backed store.
//!
//! The topology keeps its node ids and directed edges in a
//! `petgraph::stable_graph::StableGraph`, which hands out stable indices and
//! removes the incident edges of a removed node.  The store is opaque to the
//! verifier; its contents are named by two spec functions — the set of live
//! node ids and the map from edge id to (source, target) — and each wrapper
//! below states over those names what the petgraph call does.

use vstd::prelude::*;
use petgraph::stable_graph::{EdgeIndex, NodeIndex, StableGraph};
use petgraph::visit::EdgeRef;

verus! {

/// The node-and-edge store behind the topology graph.  Payloads are kept
/// outside of it, keyed by the ids it hands out.
#[verifier::external_body]
pub struct TopoStore {
    graph: StableGraph<(), ()>,
}

/// The set of live node ids the store holds.
pub uninterp spec fn store_nodes(s: TopoStore) -> Set<u32>;

/// The directed edges the store holds: each live edge id mapped to its
/// (source, target) pair.
pub uninterp spec fn store_edges(s: TopoStore) -> Map<u32, (u32, u32)>;

impl TopoStore {
    /// True of a store with no nodes and no edges.
    pub open spec fn is_empty_store(self) -> bool {
        store_nodes(self) == Set::<u32>::empty() && store_edges(self) == Map::<
            u32,
            (u32, u32),
        >::empty()
    }
}

/// Relies on `StableGraph::default`: a graph with no nodes and no edges.
#[verifier::external_body]
pub(crate) fn store_new() -> (r: TopoStore)
    ensures
        r.is_empty_store(),
{
    TopoStore { graph: StableGraph::default() }
}

/// Relies on `StableGraph::add_node`: inserts a fresh node and returns its
/// index; indices of other nodes are unaffected.  The call panics only when
/// the graph already holds the maximum node count of its index type.
#[verifier::external_body]
pub(crate) fn store_add_node(s: &mut TopoStore) -> (id: u32)
    requires
        store_nodes(*old(s)).len() < 0xFFFF_FFFF,
    ensures
        !store_nodes(*old(s)).contains(id),
        store_nodes(*final(s)) == store_nodes(*old(s)).insert(id),
        store_edges(*final(s)) == store_edges(*old(s)),
{
    s.graph.add_node(()).index() as u32
}

/// Relies on `StableGraph::remove_node`: removes the node if it is there,
/// along with every edge that has it as an endpoint; nothing else moves.
#[verifier::external_body]
pub(crate) fn store_remove_node(s: &mut TopoStore, id: u32)
    ensures
        store_nodes(*final(s)) == store_nodes(*old(s)).remove(id),
        forall|e: u32|
            store_edges(*final(s)).dom().contains(e) <==> (store_edges(
                *old(s),
            ).dom().contains(e) && store_edges(*old(s))[e].0 != id && store_edges(*old(s))[e].1
                != id),
        forall|e: u32|
            store_edges(*final(s)).dom().contains(e) ==> store_edges(*final(s))[e] == store_edges(
                *old(s),
            )[e],
{
    s.graph.remove_node(NodeIndex::new(id as usize));
}

/// Relies on `StableGraph::update_edge`: when no edge runs from `a` to `b`
/// a fresh one is added, otherwise the one already there is kept (its unit
/// weight is rewritten).  Panics only when both endpoints are live and the
/// graph already holds the maximum edge count of its index type.
#[verifier::external_body]
pub(crate) fn store_update_edge(s: &mut TopoStore, a: u32, b: u32)
    requires
        store_nodes(*old(s)).contains(a),
        store_nodes(*old(s)).contains(b),
        store_edges(*old(s)).dom().len() < 0xFFFF_FFFF,
    ensures
        store_nodes(*final(s)) == store_nodes(*old(s)),
        (exists|e: u32|
            store_edges(*old(s)).dom().contains(e) && store_edges(*old(s))[e] == (a, b))
            ==> store_edges(*final(s)) == store_edges(*old(s)),
        (forall|e: u32|
            store_edges(*old(s)).dom().contains(e) ==> store_edges(*old(s))[e] != (a, b))
            ==> (exists|e: u32|
            !store_edges(*old(s)).dom().contains(e) && store_edges(*final(s)) == store_edges(
                *old(s),
            ).insert(e, (a, b))),
{
    s.graph.update_edge(NodeIndex::new(a as usize), NodeIndex::new(b as usize), ());
}

/// Relies on `StableGraph::find_edge`: some edge id running from `a` to
/// `b`, if one is there.
#[verifier::external_body]
pub(crate) fn store_find_edge(s: &TopoStore, a: u32, b: u32) -> (r: Option<u32>)
    ensures
        match r {
            Some(e) => store_edges(*s).dom().contains(e) && store_edges(*s)[e] == (a, b),
            None => forall|e: u32|
                store_edges(*s).dom().contains(e) ==> store_edges(*s)[e] != (a, b),
        },
{
    s.graph.find_edge(NodeIndex::new(a as usize), NodeIndex::new(b as usize)).map(
        |e: EdgeIndex| e.index() as u32,
    )
}

/// Relies on `StableGraph::remove_edge`: removes the edge with that id, if
/// it is there; nodes and other edges stay.
#[verifier::external_body]
pub(crate) fn store_remove_edge(s: &mut TopoStore, e: u32)
    ensures
        store_nodes(*final(s)) == store_nodes(*old(s)),
        store_edges(*final(s)) == store_edges(*old(s)).remove(e),
{
    s.graph.remove_edge(EdgeIndex::new(e as usize));
}

/// Relies on `StableGraph::edges`: the ids of the outgoing edges of `a`,
/// each once; a node that is not there has none.
#[verifier::external_body]
pub(crate) fn store_out_edges(s: &TopoStore, a: u32) -> (r: Vec<u32>)
    ensures
        forall|i: int, j: int| 0 <= i < j < r@.len() ==> r@[i] != r@[j],
        forall|i: int|
            0 <= i < r@.len() ==> store_edges(*s).dom().contains(r@[i]) && store_edges(*s)[r@[i]].0
                == a,
        forall|e: u32|
            store_edges(*s).dom().contains(e) && store_edges(*s)[e].0 == a ==> r@.contains(e),
{
    s.graph.edges(NodeIndex::new(a as usize)).map(|edge| edge.id().index() as u32).collect()
}

} // verus!
