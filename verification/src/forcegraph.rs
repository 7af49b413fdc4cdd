//! The force graph that holds the notes and their links.
//!
//! The graph is `fdg_sim::ForceGraph<(), ()>`, a `petgraph` stable graph whose
//! nodes carry the note's name. Verus does not look inside it: what it holds
//! is named by `node_slots` and `edge_slots`, and the functions below state
//! what each call does to them.

use fdg_sim::petgraph::graph::NodeIndex;
use fdg_sim::petgraph::stable_graph::StableGraph;
use fdg_sim::petgraph::Undirected;
use fdg_sim::{ForceGraph, ForceGraphHelper, Node};
use vstd::prelude::*;

verus! {

/// `petgraph::stable_graph::StableGraph`, the graph itself, taken as it is.
#[verifier::external_type_specification]
#[verifier::external_body]
#[verifier::reject_recursive_types(N)]
#[verifier::reject_recursive_types(E)]
#[verifier::reject_recursive_types(Ty)]
#[verifier::reject_recursive_types(Ix)]
pub struct ExStableGraph<N, E, Ty, Ix>(StableGraph<N, E, Ty, Ix>);

/// `fdg_sim::Node`, what a node of a force graph carries: its name, and
/// where the simulation has it.
#[verifier::external_type_specification]
#[verifier::external_body]
#[verifier::reject_recursive_types(N)]
pub struct ExNode<N>(Node<N>);

/// `petgraph::Undirected`, the mark of a graph whose edges have no
/// direction.
#[verifier::external_type_specification]
#[verifier::external_body]
pub struct ExUndirected(Undirected);

/// The node indices of a graph from 0 up to the highest that was ever
/// given out: at each index the name of the node that has it, or `None` where
/// the node was removed.
pub uninterp spec fn node_slots(g: ForceGraph<(), ()>) -> Seq<Option<Seq<char>>>;

/// The edge indices of a graph from 0 up to the highest that was ever given
/// out: at each index the two node indices that the edge joins, in the order
/// in which they were given, or `None` where the edge was removed.
pub uninterp spec fn edge_slots(g: ForceGraph<(), ()>) -> Seq<Option<(int, int)>>;

/// Every item of `s`, present.
pub open spec fn filled<T>(s: Seq<T>) -> Seq<Option<T>> {
    s.map_values(|x: T| Some(x))
}

/// No slot of `s` is vacant.
pub open spec fn dense<T>(s: Seq<Option<T>>) -> bool {
    forall|i: int| 0 <= i < s.len() ==> (#[trigger] s[i]) is Some
}

/// The edge in this slot joins `a` to some node.
pub open spec fn touches(slot: Option<(int, int)>, a: int) -> bool {
    slot matches Some(ends) && (ends.0 == a || ends.1 == a)
}

/// The number of edges that join `a` to some node.
pub open spec fn incident(slots: Seq<Option<(int, int)>>, a: int) -> nat
    decreases slots.len(),
{
    if slots.len() == 0 {
        0
    } else if touches(slots.last(), a) {
        incident(slots.drop_last(), a) + 1
    } else {
        incident(slots.drop_last(), a)
    }
}

/// `ForceGraph::default`: a graph that never held a node or an edge.
#[verifier::external_body]
pub(crate) fn empty_graph() -> (g: ForceGraph<(), ()>)
    ensures
        node_slots(g).len() == 0,
        edge_slots(g).len() == 0,
{
    ForceGraph::default()
}

/// `ForceGraphHelper::add_force_node`, which adds a node named `name`. With
/// no vacant index to use again, the node takes the next index, which is
/// returned; the call panics where that index would be `u32::MAX`. Edges stay
/// as they are.
#[verifier::external_body]
pub(crate) fn add_note(g: &mut ForceGraph<(), ()>, name: &String) -> (index: usize)
    requires
        dense(node_slots(*old(g))),
        node_slots(*old(g)).len() < u32::MAX,
    ensures
        node_slots(*final(g)) == node_slots(*old(g)).push(Some(name@)),
        edge_slots(*final(g)) == edge_slots(*old(g)),
        index == node_slots(*old(g)).len(),
{
    g.add_force_node(name, ()).index()
}

/// `StableGraph::add_edge`, which joins the nodes `a` and `b`; an edge that
/// the two already have does not stop another. With no vacant index to use
/// again, the edge takes the next index; the call panics where a node does
/// not exist or that index would be `u32::MAX`. Nodes stay as they are.
#[verifier::external_body]
pub(crate) fn link_notes(g: &mut ForceGraph<(), ()>, a: usize, b: usize)
    requires
        a < node_slots(*old(g)).len() <= u32::MAX,
        b < node_slots(*old(g)).len(),
        node_slots(*old(g))[a as int] is Some,
        node_slots(*old(g))[b as int] is Some,
        dense(edge_slots(*old(g))),
        edge_slots(*old(g)).len() < u32::MAX,
    ensures
        edge_slots(*final(g)) == edge_slots(*old(g)).push(Some((a as int, b as int))),
        node_slots(*final(g)) == node_slots(*old(g)),
{
    g.add_edge(NodeIndex::new(a), NodeIndex::new(b), ());
}

/// `StableGraph::neighbors_undirected`, counted: it walks the edges that
/// leave `a`, then those that reach `a` from another node, so that each edge
/// at `a` is met once.
#[verifier::external_body]
pub(crate) fn neighbor_count(g: &ForceGraph<(), ()>, a: usize) -> (n: usize)
    requires
        a <= u32::MAX,
    ensures
        n == incident(edge_slots(*g), a as int),
{
    g.neighbors_undirected(NodeIndex::new(a)).count()
}

} // verus!
