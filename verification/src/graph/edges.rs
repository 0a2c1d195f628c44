//! Data dependencies between the nodes of a graph: from the last writer of a
//! tensor to each read of it.

use vstd::prelude::*;
use crate::graph::order::{count_of, lemma_count_prefix};
use crate::graph::{nodes_view, Edge, Node, NodeView, TensorId};

verus! {

/// Node `p` writes tensor `t`, and no later node does: `p` is the producer
/// of `t` that later operations read from.
pub open spec fn produces(nodes: Seq<NodeView>, t: TensorId, p: int) -> bool {
    &&& 0 <= p < nodes.len()
    &&& nodes[p].outputs.contains(t)
    &&& forall|q: int| p < q < nodes.len() ==> !(#[trigger] nodes[q].outputs).contains(t)
}

/// Some node produces `t`.
pub open spec fn has_producer(nodes: Seq<NodeView>, t: TensorId) -> bool {
    exists|p: int| produces(nodes, t, p)
}

/// Some node before `p` produces `t`.
pub open spec fn produced_before(nodes: Seq<NodeView>, t: TensorId, p: int) -> bool {
    exists|q: int| 0 <= q < p && produces(nodes, t, q)
}

/// Number of edges into node `c` that carry tensor `t`.
pub open spec fn edges_into(edges: Seq<Edge>, c: usize, t: TensorId) -> nat
    decreases edges.len(),
{
    if edges.len() == 0 {
        0
    } else {
        edges_into(edges.drop_last(), c, t) + if edges.last().to_node == c
            && edges.last().tensor_id == t {
            1nat
        } else {
            0nat
        }
    }
}

/// `edges` are the data dependencies of `nodes`: every edge leads from the
/// producer of a tensor to a node that reads it, and each read of a tensor
/// that has a producer is the target of exactly one edge.
pub open spec fn dependency_edges_of(nodes: Seq<NodeView>, edges: Seq<Edge>) -> bool {
    &&& forall|k: int|
        #![trigger edges[k]]
        0 <= k < edges.len() ==> {
            &&& produces(nodes, edges[k].tensor_id, edges[k].from_node as int)
            &&& edges[k].to_node < nodes.len()
            &&& nodes[edges[k].to_node as int].inputs.contains(edges[k].tensor_id)
        }
    &&& forall|c: usize, t: TensorId|
        c < nodes.len() ==> #[trigger] edges_into(edges, c, t) == if has_producer(nodes, t) {
            count_of(nodes[c as int].inputs, t)
        } else {
            0
        }
}

/// Edges come in order of their source node, and edges with the same
/// source in order of their target node.
pub open spec fn edges_sorted(edges: Seq<Edge>) -> bool {
    forall|k: int, l: int|
        #![trigger edges[k], edges[l]]
        0 <= k < l < edges.len() ==> edges[k].from_node < edges[l].from_node || (edges[k].from_node
            == edges[l].from_node && edges[k].to_node <= edges[l].to_node)
}

proof fn lemma_producer_unique(nodes: Seq<NodeView>, t: TensorId, p: int, q: int)
    requires
        produces(nodes, t, p),
        produces(nodes, t, q),
    ensures
        p == q,
{
    if p < q {
        assert(nodes[q].outputs.contains(t));
    } else if q < p {
        assert(nodes[p].outputs.contains(t));
    }
}

proof fn lemma_edges_into_push(edges: Seq<Edge>, e: Edge, c: usize, t: TensorId)
    ensures
        edges_into(edges.push(e), c, t) == edges_into(edges, c, t) + if e.to_node == c
            && e.tensor_id == t {
            1nat
        } else {
            0nat
        },
{
    assert(edges.push(e).drop_last() =~= edges);
}

/// Whether `x` occurs in `v`.
fn contains_id(v: &Vec<TensorId>, x: TensorId) -> (r: bool)
    ensures
        r == v@.contains(x),
{
    let mut i: usize = 0;
    while i < v.len()
        invariant
            i <= v@.len(),
            forall|j: int| 0 <= j < i ==> v@[j] != x,
        decreases v@.len() - i,
    {
        if v[i] == x {
            return true;
        }
        i = i + 1;
    }
    false
}

/// Whether no node after `p` writes `t`.
fn no_later_writer(nodes: &Vec<Node>, p: usize, t: TensorId) -> (r: bool)
    requires
        p < nodes@.len(),
    ensures
        r == forall|q: int| p < q < nodes@.len() ==> !(#[trigger] nodes_view(nodes@)[q].outputs).contains(t),
{
    let n = nodes.len();
    let mut q: usize = p + 1;
    while q < n
        invariant
            p < q <= nodes@.len(),
            n == nodes@.len(),
            forall|q2: int| p < q2 < q ==> !(#[trigger] nodes_view(nodes@)[q2].outputs).contains(t),
        decreases nodes@.len() - q,
    {
        if contains_id(&nodes[q].outputs, t) {
            assert(nodes_view(nodes@)[q as int].outputs.contains(t));
            return false;
        }
        q = q + 1;
    }
    true
}

/// The data dependencies between nodes that each write at most one tensor.
pub(crate) fn dependency_edges(nodes: &Vec<Node>) -> (edges: Vec<Edge>)
    requires
        forall|i: int| 0 <= i < nodes@.len() ==> (#[trigger] nodes@[i]).outputs@.len() <= 1,
    ensures
        dependency_edges_of(nodes_view(nodes@), edges@),
        edges_sorted(edges@),
{
    let ghost nv = nodes_view(nodes@);
    let n = nodes.len();
    let mut edges: Vec<Edge> = Vec::new();
    let mut p: usize = 0;
    while p < n
        invariant
            nv == nodes_view(nodes@),
            n == nodes@.len(),
            forall|i: int| 0 <= i < nodes@.len() ==> (#[trigger] nodes@[i]).outputs@.len() <= 1,
            p <= n,
            edges_sorted(edges@),
            forall|k: int| 0 <= k < edges@.len() ==> (#[trigger] edges@[k]).from_node < p,
            forall|k: int|
                #![trigger edges@[k]]
                0 <= k < edges@.len() ==> {
                    &&& produces(nv, edges@[k].tensor_id, edges@[k].from_node as int)
                    &&& edges@[k].to_node < n
                    &&& nv[edges@[k].to_node as int].inputs.contains(edges@[k].tensor_id)
                },
            forall|c: usize, t: TensorId|
                c < n ==> #[trigger] edges_into(edges@, c, t) == if produced_before(nv, t, p as int) {
                    count_of(nv[c as int].inputs, t)
                } else {
                    0
                },
        decreases n - p,
    {
        let ghost before = edges@;
        let mut produced: bool = false;
        let mut t: TensorId = 0;
        if nodes[p].outputs.len() == 1 {
            t = nodes[p].outputs[0];
            proof {
                assert(nv[p as int].outputs[0] == t);
            }
            produced = no_later_writer(nodes, p, t);
        }
        proof {
            assert forall|t2: TensorId| produced_before(nv, t2, p + 1) <==> produced_before(nv, t2, p as int)
                || (produced && t2 == t) by {
                if produced_before(nv, t2, p + 1) {
                    let q = choose|q: int| 0 <= q < p + 1 && produces(nv, t2, q);
                    if q == p {
                        assert(nv[p as int].outputs.contains(t2));
                        let j = choose|j: int| 0 <= j < nv[p as int].outputs.len() && nv[p as int].outputs[j] == t2;
                        assert(nodes@[p as int].outputs@.len() <= 1);
                    }
                }
                if produced && t2 == t {
                    assert(produces(nv, t, p as int));
                }
            }
            if produced {
                assert(!produced_before(nv, t, p as int)) by {
                    if produced_before(nv, t, p as int) {
                        let q = choose|q: int| 0 <= q < p && produces(nv, t, q);
                        lemma_producer_unique(nv, t, p as int, q);
                    }
                }
            }
        }
        if produced {
            let mut c: usize = 0;
            while c < n
                invariant
                    nv == nodes_view(nodes@),
                    n == nodes@.len(),
                    p < n,
                    c <= n,
                    edges_sorted(edges@),
                    forall|k: int| 0 <= k < edges@.len() ==> (#[trigger] edges@[k]).from_node < p
                        || (edges@[k].from_node == p && edges@[k].to_node < c),
                    produces(nv, t, p as int),
                    !produced_before(nv, t, p as int),
                    forall|k: int|
                        #![trigger edges@[k]]
                        0 <= k < edges@.len() ==> {
                            &&& produces(nv, edges@[k].tensor_id, edges@[k].from_node as int)
                            &&& edges@[k].to_node < n
                            &&& nv[edges@[k].to_node as int].inputs.contains(edges@[k].tensor_id)
                        },
                    forall|c2: usize, t2: TensorId|
                        c2 < n ==> #[trigger] edges_into(edges@, c2, t2) == (if produced_before(nv, t2, p as int) {
                            count_of(nv[c2 as int].inputs, t2)
                        } else {
                            0
                        }) + (if t2 == t && c2 < c {
                            count_of(nv[c2 as int].inputs, t2)
                        } else {
                            0
                        }),
                decreases n - c,
            {
                let mut i: usize = 0;
                let ilen = nodes[c].inputs.len();
                while i < ilen
                    invariant
                        nv == nodes_view(nodes@),
                        n == nodes@.len(),
                        p < n,
                        c < n,
                        i <= ilen,
                        ilen == nv[c as int].inputs.len(),
                        edges_sorted(edges@),
                        forall|k: int| 0 <= k < edges@.len() ==> (#[trigger] edges@[k]).from_node < p
                            || (edges@[k].from_node == p && edges@[k].to_node <= c),
                        produces(nv, t, p as int),
                        !produced_before(nv, t, p as int),
                        forall|k: int|
                            #![trigger edges@[k]]
                            0 <= k < edges@.len() ==> {
                                &&& produces(nv, edges@[k].tensor_id, edges@[k].from_node as int)
                                &&& edges@[k].to_node < n
                                &&& nv[edges@[k].to_node as int].inputs.contains(edges@[k].tensor_id)
                            },
                        forall|c2: usize, t2: TensorId|
                            c2 < n ==> #[trigger] edges_into(edges@, c2, t2) == (if produced_before(nv, t2, p as int) {
                                count_of(nv[c2 as int].inputs, t2)
                            } else {
                                0
                            }) + (if t2 == t && c2 < c {
                                count_of(nv[c2 as int].inputs, t2)
                            } else if t2 == t && c2 == c {
                                count_of(nv[c2 as int].inputs.take(i as int), t2)
                            } else {
                                0
                            }),
                    decreases ilen - i,
                {
                    proof {
                        lemma_count_prefix(nv[c as int].inputs, t, i as int);
                    }
                    if nodes[c].inputs[i] == t {
                        let e = Edge { from_node: p, to_node: c, tensor_id: t };
                        let ghost pre = edges@;
                        edges.push(e);
                        proof {
                            assert(nv[c as int].inputs[i as int] == t);
                            assert forall|c2: usize, t2: TensorId| c2 < n implies #[trigger] edges_into(edges@, c2, t2) == edges_into(pre, c2, t2) + if c2 == c && t2 == t {
                                1nat
                            } else {
                                0nat
                            } by {
                                lemma_edges_into_push(pre, e, c2, t2);
                            }
                            assert forall|k: int, l: int|
                                #![trigger edges@[k], edges@[l]]
                                0 <= k < l < edges@.len() implies edges@[k].from_node < edges@[l].from_node
                                    || (edges@[k].from_node == edges@[l].from_node && edges@[k].to_node <= edges@[l].to_node) by {
                                assert(edges@[k] == pre[k]);
                                if l < pre.len() {
                                    assert(edges@[l] == pre[l]);
                                }
                            }
                            assert forall|k: int| 0 <= k < edges@.len() implies (#[trigger] edges@[k]).from_node < p
                                || (edges@[k].from_node == p && edges@[k].to_node <= c) by {
                                if k < pre.len() {
                                    assert(edges@[k] == pre[k]);
                                }
                            }
                            assert forall|k: int| #![trigger edges@[k]] 0 <= k < edges@.len() implies {
                                &&& produces(nv, edges@[k].tensor_id, edges@[k].from_node as int)
                                &&& edges@[k].to_node < n
                                &&& nv[edges@[k].to_node as int].inputs.contains(edges@[k].tensor_id)
                            } by {
                                if k < pre.len() {
                                    assert(edges@[k] == pre[k]);
                                } else {
                                    assert(nv[c as int].inputs[i as int] == t);
                                }
                            }
                        }
                    } else {
                        proof {
                            assert(nv[c as int].inputs[i as int] != t);
                        }
                    }
                    i = i + 1;
                }
                proof {
                    assert(nv[c as int].inputs.take(ilen as int) =~= nv[c as int].inputs);
                }
                c = c + 1;
            }
        }
        p = p + 1;
    }
    proof {
        assert forall|t: TensorId| produced_before(nv, t, n as int) <==> has_producer(nv, t) by {
            if has_producer(nv, t) {
                let q = choose|q: int| produces(nv, t, q);
                assert(0 <= q < n);
            }
        }
    }
    edges
}

} // verus!
