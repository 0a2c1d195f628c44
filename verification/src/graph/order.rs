//! Dependency-respecting orders of graph nodes, and the proof that Kahn's
//! algorithm finds one exactly when the dependencies hold no cycle.

use vstd::prelude::*;
use crate::graph::Edge;
use crate::RuntimeError;

verus! {

/// All edges lead between nodes `0..n`.
pub open spec fn edges_in_range(n: nat, edges: Seq<Edge>) -> bool {
    forall|k: int| #![trigger edges[k]] 0 <= k < edges.len() ==> edges[k].from_node < n && edges[k].to_node < n
}

/// `order` lists each node of `0..n` exactly once, and the source of every
/// edge comes before its target.
pub open spec fn is_topological_order(n: nat, edges: Seq<Edge>, order: Seq<usize>) -> bool {
    &&& order.len() == n
    &&& order.no_duplicates()
    &&& forall|i: int| 0 <= i < order.len() ==> #[trigger] order[i] < n
    &&& forall|k: int, i: int, j: int|
        #![trigger edges[k], order[i], order[j]]
        0 <= k < edges.len() && 0 <= i < order.len() && 0 <= j < order.len()
            && order[i] == edges[k].from_node && order[j] == edges[k].to_node ==> i < j
}

/// Some order of the nodes `0..n` respects every edge; that is, the
/// dependencies hold no cycle.
pub open spec fn has_topological_order(n: nat, edges: Seq<Edge>) -> bool {
    exists|order: Seq<usize>| is_topological_order(n, edges, order)
}

/// Number of edges into `v` whose source is not among `done`.
pub open spec fn pending_into(edges: Seq<Edge>, v: usize, done: Seq<usize>) -> nat
    decreases edges.len(),
{
    if edges.len() == 0 {
        0
    } else {
        pending_into(edges.drop_last(), v, done) + if edges.last().to_node == v && !done.contains(
            edges.last().from_node,
        ) {
            1nat
        } else {
            0nat
        }
    }
}

/// Number of edges from `u` to `v`.
pub open spec fn edges_between(edges: Seq<Edge>, u: usize, v: usize) -> nat
    decreases edges.len(),
{
    if edges.len() == 0 {
        0
    } else {
        edges_between(edges.drop_last(), u, v) + if edges.last().from_node == u
            && edges.last().to_node == v {
            1nat
        } else {
            0nat
        }
    }
}

/// Targets of the edges out of `u`, in edge order.
pub open spec fn targets_from(edges: Seq<Edge>, u: usize) -> Seq<usize>
    decreases edges.len(),
{
    if edges.len() == 0 {
        Seq::empty()
    } else if edges.last().from_node == u {
        targets_from(edges.drop_last(), u).push(edges.last().to_node)
    } else {
        targets_from(edges.drop_last(), u)
    }
}

/// Number of occurrences of `v` in `s`.
pub open spec fn count_of(s: Seq<usize>, v: usize) -> nat
    decreases s.len(),
{
    if s.len() == 0 {
        0
    } else {
        count_of(s.drop_last(), v) + if s.last() == v {
            1nat
        } else {
            0nat
        }
    }
}

proof fn lemma_pending_split(edges: Seq<Edge>, v: usize, done: Seq<usize>, u: usize)
    requires
        !done.contains(u),
    ensures
        pending_into(edges, v, done) == edges_between(edges, u, v) + pending_into(
            edges,
            v,
            done.push(u),
        ),
    decreases edges.len(),
{
    if edges.len() > 0 {
        lemma_pending_split(edges.drop_last(), v, done, u);
        let x = edges.last().from_node;
        assert(done.push(u).contains(x) <==> done.contains(x) || x == u) by {
            if done.push(u).contains(x) {
                let i = choose|i: int| 0 <= i < done.push(u).len() && done.push(u)[i] == x;
                if i < done.len() {
                    assert(done[i] == x);
                }
            }
            if done.contains(x) {
                let i = choose|i: int| 0 <= i < done.len() && done[i] == x;
                assert(done.push(u)[i] == x);
            }
            if x == u {
                assert(done.push(u)[done.len() as int] == x);
            }
        }
    }
}

proof fn lemma_targets_count(edges: Seq<Edge>, u: usize, v: usize)
    ensures
        count_of(targets_from(edges, u), v) == edges_between(edges, u, v),
    decreases edges.len(),
{
    if edges.len() > 0 {
        lemma_targets_count(edges.drop_last(), u, v);
        let t = targets_from(edges.drop_last(), u);
        if edges.last().from_node == u {
            assert(t.push(edges.last().to_node).drop_last() =~= t);
        }
    }
}

proof fn lemma_pending_witness(edges: Seq<Edge>, v: usize, done: Seq<usize>)
    requires
        pending_into(edges, v, done) > 0,
    ensures
        exists|k: int|
            0 <= k < edges.len() && #[trigger] edges[k].to_node == v && !done.contains(
                edges[k].from_node,
            ),
    decreases edges.len(),
{
    let last = edges.last();
    if last.to_node == v && !done.contains(last.from_node) {
        assert(edges[edges.len() - 1].to_node == v);
    } else {
        lemma_pending_witness(edges.drop_last(), v, done);
        let k = choose|k: int|
            0 <= k < edges.drop_last().len() && #[trigger] edges.drop_last()[k].to_node == v
                && !done.contains(edges.drop_last()[k].from_node);
        assert(edges[k].to_node == v);
    }
}

proof fn lemma_pending_positive(edges: Seq<Edge>, v: usize, done: Seq<usize>, k: int)
    requires
        0 <= k < edges.len(),
        edges[k].to_node == v,
        !done.contains(edges[k].from_node),
    ensures
        pending_into(edges, v, done) > 0,
    decreases edges.len(),
{
    if k < edges.len() - 1 {
        assert(edges.drop_last()[k] == edges[k]);
        lemma_pending_positive(edges.drop_last(), v, done, k);
    }
}

proof fn lemma_pending_bounded(edges: Seq<Edge>, v: usize, done: Seq<usize>)
    ensures
        pending_into(edges, v, done) <= edges.len(),
    decreases edges.len(),
{
    if edges.len() > 0 {
        lemma_pending_bounded(edges.drop_last(), v, done);
    }
}

pub(crate) proof fn lemma_count_prefix(s: Seq<usize>, v: usize, k: int)
    requires
        0 <= k < s.len(),
    ensures
        count_of(s.take(k + 1), v) == count_of(s.take(k), v) + if s[k] == v {
            1nat
        } else {
            0nat
        },
        count_of(s.take(k + 1), v) <= count_of(s, v),
    decreases s.len(),
{
    assert(s.take(k + 1).drop_last() =~= s.take(k));
    if k + 1 < s.len() {
        lemma_count_prefix(s.drop_last(), v, k);
        assert(s.drop_last().take(k + 1) =~= s.take(k + 1));
        assert(s.drop_last().take(k) =~= s.take(k));
    } else {
        assert(s.take(k + 1) =~= s);
    }
}

/// The set of `usize` values below `n`.
spec fn below(n: nat) -> Set<usize> {
    Set::new(|x: usize| x < n)
}

proof fn lemma_below_len(n: nat)
    requires
        n <= usize::MAX + 1,
    ensures
        below(n).finite(),
        below(n).len() == n,
    decreases n,
{
    if n == 0 {
        assert(below(n) =~= Set::empty());
    } else {
        lemma_below_len((n - 1) as nat);
        assert(below((n - 1) as nat).insert((n - 1) as usize) =~= below(n));
    }
}

/// A sequence of distinct values below `n` that misses one of them is
/// shorter than `n`.
proof fn lemma_missing_value_shortens(s: Seq<usize>, n: nat, v: usize)
    requires
        s.no_duplicates(),
        forall|i: int| 0 <= i < s.len() ==> #[trigger] s[i] < n,
        v < n,
        n <= usize::MAX + 1,
        !s.contains(v),
    ensures
        s.len() < n,
{
    lemma_below_len(n);
    s.unique_seq_to_set();
    let t = below(n).remove(v);
    assert(s.to_set().subset_of(t)) by {
        assert forall|x: usize| s.to_set().contains(x) implies t.contains(x) by {
            let i = choose|i: int| 0 <= i < s.len() && s[i] == x;
            assert(s[i] < n);
        }
    }
    vstd::set_lib::lemma_len_subset(s.to_set(), t);
}

/// No order respects the edges when some nodes remain whose pending count
/// of incoming edges (from nodes outside `done`) is positive for every node
/// outside `done`.
proof fn lemma_stuck_means_cycle(n: nat, edges: Seq<Edge>, done: Seq<usize>, w: usize)
    requires
        edges_in_range(n, edges),
        n <= usize::MAX + 1,
        w < n,
        !done.contains(w),
        forall|v: usize| v < n && !done.contains(v) ==> #[trigger] pending_into(edges, v, done) > 0,
    ensures
        !has_topological_order(n, edges),
{
    if has_topological_order(n, edges) {
        let order = choose|order: Seq<usize>| is_topological_order(n, edges, order);
        // every node occurs in the order
        assert forall|v: usize| v < n implies order.contains(v) by {
            if !order.contains(v) {
                lemma_missing_value_shortens(order, n, v);
            }
        }
        lemma_no_stuck_position(n, edges, done, order, order.len() as int);
        assert(order.contains(w));
        let j = choose|j: int| 0 <= j < order.len() && order[j] == w;
        assert(!done.contains(order[j]));
    }
}

proof fn lemma_no_stuck_position(n: nat, edges: Seq<Edge>, done: Seq<usize>, order: Seq<usize>, m: int)
    requires
        edges_in_range(n, edges),
        is_topological_order(n, edges, order),
        forall|v: usize| v < n ==> order.contains(v),
        forall|v: usize| v < n && !done.contains(v) ==> #[trigger] pending_into(edges, v, done) > 0,
        0 <= m <= order.len(),
    ensures
        forall|j: int| 0 <= j < m ==> done.contains(#[trigger] order[j]),
    decreases m,
{
    if m > 0 {
        lemma_no_stuck_position(n, edges, done, order, m - 1);
        let v = order[m - 1];
        if !done.contains(v) {
            assert(pending_into(edges, v, done) > 0);
            lemma_pending_witness(edges, v, done);
            let k = choose|k: int|
                0 <= k < edges.len() && #[trigger] edges[k].to_node == v && !done.contains(
                    edges[k].from_node,
                );
            let u = edges[k].from_node;
            assert(u < n);
            assert(order.contains(u));
            let i = choose|i: int| 0 <= i < order.len() && order[i] == u;
            assert(order[m - 1] == edges[k].to_node);
            assert(i < m - 1);
            assert(done.contains(order[i]));
        }
    }
}


/// Dependencies that all lead from an earlier node to a later one hold no
/// cycle: the nodes in their own order respect them.
pub proof fn lemma_forward_edges_are_ordered(n: nat, edges: Seq<Edge>)
    requires
        n <= usize::MAX + 1,
        forall|k: int| 0 <= k < edges.len() ==> (#[trigger] edges[k]).from_node < edges[k].to_node,
    ensures
        is_topological_order(n, edges, Seq::new(n, |i: int| i as usize)),
        has_topological_order(n, edges),
{
    let order = Seq::new(n, |i: int| i as usize);
    assert forall|i: int, j: int| 0 <= i < order.len() && 0 <= j < order.len() && i != j implies order[i] != order[j] by {}
    assert forall|k: int, i: int, j: int|
        #![trigger edges[k], order[i], order[j]]
        0 <= k < edges.len() && 0 <= i < order.len() && 0 <= j < order.len()
            && order[i] == edges[k].from_node && order[j] == edges[k].to_node implies i < j by {}
    assert(is_topological_order(n, edges, order));
}

/// Message of the error that reports a dependency cycle.
pub open spec fn cycle_message() -> Seq<char> {
    "Cycle detected in computational graph"@
}

/// How far Kahn's algorithm has come: the queue of nodes that became ready,
/// in the order they did; how many of them have been visited; and for each
/// node the number of its incoming edges from nodes not yet visited.
pub struct KahnState {
    pub queue: Seq<usize>,
    pub visited: nat,
    pub degrees: Seq<usize>,
}

/// For each node of `0..n`, the number of edges into it.
pub open spec fn initial_degrees(n: nat, edges: Seq<Edge>) -> Seq<usize> {
    Seq::new(n, |v: int| pending_into(edges, v as usize, Seq::empty()) as usize)
}

/// The nodes of `0..v` without incoming edges, in increasing order.
pub open spec fn ready_below(degrees: Seq<usize>, v: nat) -> Seq<usize>
    decreases v,
{
    if v == 0 {
        Seq::empty()
    } else {
        let rest = ready_below(degrees, (v - 1) as nat);
        if degrees[v - 1] == 0 {
            rest.push((v - 1) as usize)
        } else {
            rest
        }
    }
}

/// The degrees and queue after the edges to `targets`, in order, lose their
/// source: each target's degree drops by one, and a target whose degree
/// drops to zero joins the end of the queue.
pub open spec fn release_targets(targets: Seq<usize>, degrees: Seq<usize>, queue: Seq<usize>) -> (Seq<usize>, Seq<usize>)
    decreases targets.len(),
{
    if targets.len() == 0 {
        (degrees, queue)
    } else {
        let (d, q) = release_targets(targets.drop_last(), degrees, queue);
        let t = targets.last();
        let nd = d.update(t as int, (d[t as int] - 1) as usize);
        if d[t as int] - 1 == 0 {
            (nd, q.push(t))
        } else {
            (nd, q)
        }
    }
}

/// One step of Kahn's algorithm: visit the first queued node not yet
/// visited and release the edges out of it, in edge order; nothing changes
/// once every queued node has been visited.
pub open spec fn kahn_step(edges: Seq<Edge>, s: KahnState) -> KahnState {
    if s.visited < s.queue.len() {
        let u = s.queue[s.visited as int];
        let (d, q) = release_targets(targets_from(edges, u), s.degrees, s.queue);
        KahnState { queue: q, visited: s.visited + 1, degrees: d }
    } else {
        s
    }
}

/// The state of Kahn's algorithm on nodes `0..n` after `k` steps, starting
/// from the nodes without incoming edges queued in increasing order.
pub open spec fn kahn_state(n: nat, edges: Seq<Edge>, k: nat) -> KahnState
    decreases k,
{
    if k == 0 {
        KahnState {
            queue: ready_below(initial_degrees(n, edges), n),
            visited: 0,
            degrees: initial_degrees(n, edges),
        }
    } else {
        kahn_step(edges, kahn_state(n, edges, (k - 1) as nat))
    }
}

/// The order in which Kahn's algorithm, with a first-in first-out queue
/// seeded with the ready nodes in increasing order and releasing each
/// visited node's edges in edge order, visits the nodes `0..n`.
pub open spec fn kahn_order(n: nat, edges: Seq<Edge>) -> Seq<usize> {
    kahn_state(n, edges, n).queue
}

/// Once every queued node has been visited, further steps change nothing.
proof fn lemma_kahn_settled(n: nat, edges: Seq<Edge>, k: nat, m: nat)
    requires
        k <= m,
        kahn_state(n, edges, k).visited >= kahn_state(n, edges, k).queue.len(),
    ensures
        kahn_state(n, edges, m) == kahn_state(n, edges, k),
    decreases m - k,
{
    if k < m {
        lemma_kahn_settled(n, edges, k, (m - 1) as nat);
    }
}

/// Orders the nodes `0..n` so that every edge leads forward (Kahn's
/// algorithm, visiting ready nodes first-in first-out), or reports a cycle.
pub fn dependency_order(n: usize, edges: &Vec<Edge>) -> (r: Result<Vec<usize>, RuntimeError>)
    requires
        edges_in_range(n as nat, edges@),
    ensures
        match r {
            Ok(order) => order@ == kahn_order(n as nat, edges@) && is_topological_order(n as nat, edges@, order@),
            Err(e) => e matches RuntimeError::Graph(msg) && msg@ == cycle_message()
                && kahn_order(n as nat, edges@).len() != n && !has_topological_order(n as nat, edges@),
        },
{
    let ghost es = edges@;
    let mut in_degree: Vec<usize> = Vec::new();
    let mut adjacency: Vec<Vec<usize>> = Vec::new();
    let mut i: usize = 0;
    while i < n
        invariant
            i <= n,
            in_degree@.len() == i,
            adjacency@.len() == i,
            forall|v: int| 0 <= v < i ==> #[trigger] in_degree@[v] == 0,
            forall|v: int| 0 <= v < i ==> #[trigger] adjacency@[v]@ == Seq::<usize>::empty(),
        decreases n - i,
    {
        in_degree.push(0);
        adjacency.push(Vec::new());
        i = i + 1;
    }
    // Build adjacency lists and in-degrees.
    let mut k: usize = 0;
    while k < edges.len()
        invariant
            es == edges@,
            edges_in_range(n as nat, es),
            k <= es.len(),
            in_degree@.len() == n,
            adjacency@.len() == n,
            forall|v: int| 0 <= v < n ==> #[trigger] in_degree@[v] == pending_into(
                es.take(k as int),
                v as usize,
                Seq::empty(),
            ),
            forall|u: int| 0 <= u < n ==> #[trigger] adjacency@[u]@ == targets_from(
                es.take(k as int),
                u as usize,
            ),
        decreases es.len() - k,
    {
        let e = edges[k];
        assert(es.take(k + 1).drop_last() =~= es.take(k as int));
        assert(e.to_node < n);
        proof {
            lemma_pending_bounded(es.take(k as int), e.to_node, Seq::empty());
        }
        adjacency[e.from_node].push(e.to_node);
        let d = in_degree[e.to_node];
        in_degree.set(e.to_node, d + 1);
        k = k + 1;
    }
    assert(es.take(es.len() as int) =~= es);
    assert(in_degree@ =~= initial_degrees(n as nat, es));
    // Queue of ready nodes; `queue[..head]` have been visited.
    let mut queue: Vec<usize> = Vec::new();
    let mut v: usize = 0;
    while v < n
        invariant
            v <= n,
            in_degree@.len() == n,
            es == edges@,
            forall|w: int| 0 <= w < n ==> #[trigger] in_degree@[w] == pending_into(es, w as usize, Seq::empty()),
            queue@.no_duplicates(),
            forall|j: int| 0 <= j < queue@.len() ==> #[trigger] queue@[j] < v,
            forall|w: usize| w < v ==> (queue@.contains(w) <==> #[trigger] in_degree@[w as int] == 0),
            in_degree@ == initial_degrees(n as nat, es),
            queue@ == ready_below(in_degree@, v as nat),
        decreases n - v,
    {
        if in_degree[v] == 0 {
            let ghost pre = queue@;
            assert(!pre.contains(v)) by {
                if pre.contains(v) {
                    let j = choose|j: int| 0 <= j < pre.len() && pre[j] == v;
                    assert(pre[j] < v);
                }
            }
            queue.push(v);
            proof {
                lemma_push_keeps(pre, v);
            }
        } else {
            assert forall|w: usize| w < v + 1 implies (queue@.contains(w) <==> #[trigger] in_degree@[w as int] == 0) by {
                if w == v && queue@.contains(w) {
                    let j = choose|j: int| 0 <= j < queue@.len() && queue@[j] == v;
                    assert(queue@[j] < v);
                }
            }
        }
        v = v + 1;
    }
    proof {
        assert(queue@.take(0) =~= Seq::<usize>::empty());
        assert forall|j: int, k: int|
            #![trigger queue@[j], es[k]]
            0 <= j < queue@.len() && 0 <= k < es.len() && queue@[j] == es[k].to_node
                implies queue@.take(j).contains(es[k].from_node) by {
            let w = queue@[j];
            assert(!Seq::<usize>::empty().contains(es[k].from_node));
            lemma_pending_positive(es, w, Seq::empty(), k);
            assert(queue@.contains(w));
            assert(w < n);
            assert(in_degree@[w as int] == 0);
            assert(in_degree@[w as int] == pending_into(es, w, Seq::empty()));
        }
    }
    let mut head: usize = 0;
    while head < queue.len()
        invariant
            es == edges@,
            edges_in_range(n as nat, es),
            n <= usize::MAX,
            head <= queue@.len(),
            in_degree@.len() == n,
            adjacency@.len() == n,
            forall|u: int| 0 <= u < n ==> #[trigger] adjacency@[u]@ == targets_from(es, u as usize),
            queue@.no_duplicates(),
            forall|j: int| 0 <= j < queue@.len() ==> #[trigger] queue@[j] < n,
            forall|w: usize| w < n ==> (queue@.contains(w) <==> #[trigger] in_degree@[w as int] == 0),
            forall|w: usize| w < n ==> #[trigger] in_degree@[w as int] == pending_into(es, w, queue@.take(head as int)),
            forall|j: int, k: int|
                #![trigger queue@[j], es[k]]
                0 <= j < queue@.len() && 0 <= k < es.len() && queue@[j] == es[k].to_node
                    ==> queue@.take(j).contains(es[k].from_node),
            kahn_state(n as nat, es, head as nat).queue == queue@,
            kahn_state(n as nat, es, head as nat).visited == head,
            kahn_state(n as nat, es, head as nat).degrees == in_degree@,
        decreases n - head,
    {
        proof {
            lemma_distinct_below_len(queue@, n as nat);
        }
        let node = queue[head];
        let ghost done0 = queue@.take(head as int);
        assert(!done0.contains(node)) by {
            if done0.contains(node) {
                let j = choose|j: int| 0 <= j < done0.len() && done0[j] == node;
                assert(queue@[j] == queue@[head as int]);
            }
        }
        assert(queue@.take(head + 1) =~= done0.push(node));
        let ghost q0 = queue@;
        let ghost deg0 = in_degree@;
        head = head + 1;
        let ghost targets = targets_from(es, node);
        let ghost old_len = queue@.len();
        let mut t: usize = 0;
        let tlen = adjacency[node].len();
        proof {
            assert forall|w: usize| w < n implies count_of(targets, w) <= pending_into(es, w, done0) by {
                lemma_pending_split(es, w, done0, node);
                lemma_targets_count(es, node, w);
            }
        }
        while t < tlen
            invariant
                es == edges@,
                edges_in_range(n as nat, es),
                n <= usize::MAX,
                1 <= head <= old_len <= queue@.len(),
                queue@[head - 1] == node,
                in_degree@.len() == n,
                adjacency@.len() == n,
                forall|u: int| 0 <= u < n ==> #[trigger] adjacency@[u]@ == targets_from(es, u as usize),
                targets == targets_from(es, node),
                tlen == targets.len(),
                t <= tlen,
                done0 == queue@.take(head - 1),
                !done0.contains(node),
                queue@.take(head as int) == done0.push(node),
                forall|w: usize| w < n ==> count_of(targets, w) <= pending_into(es, w, done0),
                queue@.no_duplicates(),
                forall|j: int| 0 <= j < queue@.len() ==> #[trigger] queue@[j] < n,
                forall|w: usize| w < n ==> (queue@.contains(w) <==> #[trigger] in_degree@[w as int] == 0),
                forall|w: usize| w < n ==> #[trigger] in_degree@[w as int] + count_of(targets.take(t as int), w)
                    == pending_into(es, w, done0),
                forall|j: int, k: int|
                    #![trigger queue@[j], es[k]]
                    0 <= j < queue@.len() && 0 <= k < es.len() && queue@[j] == es[k].to_node
                        ==> queue@.take(j).contains(es[k].from_node),
                head - 1 < q0.len(),
                q0[head - 1] == node,
                kahn_state(n as nat, es, (head - 1) as nat).queue == q0,
                kahn_state(n as nat, es, (head - 1) as nat).visited == head - 1,
                kahn_state(n as nat, es, (head - 1) as nat).degrees == deg0,
                release_targets(targets.take(t as int), deg0, q0).0 == in_degree@,
                release_targets(targets.take(t as int), deg0, q0).1 == queue@,
            decreases tlen - t,
        {
            let neighbor = adjacency[node][t];
            proof {
                assert(targets.take(t + 1).drop_last() =~= targets.take(t as int));
                assert(targets.take(t + 1).last() == targets[t as int]);
                assert(targets[t as int] == neighbor);
                assert(neighbor < n) by {
                    lemma_targets_in_range(n as nat, es, node, t as int);
                }
                lemma_count_prefix(targets, neighbor, t as int);
                assert forall|w: usize| w < n && w != neighbor implies count_of(targets.take(t + 1), w) == count_of(targets.take(t as int), w) by {
                    lemma_count_prefix(targets, w, t as int);
                }
            }
            let d = in_degree[neighbor];
            in_degree.set(neighbor, d - 1);
            if d - 1 == 0 {
                let ghost pre = queue@;
                assert(!pre.contains(neighbor));
                queue.push(neighbor);
                proof {
                    lemma_push_keeps(pre, neighbor);
                    // every edge into `neighbor` starts at a visited node
                    assert forall|k: int| 0 <= k < es.len() && #[trigger] es[k].to_node == neighbor implies queue@.take(pre.len() as int).contains(es[k].from_node) by {
                        if !done0.push(node).contains(es[k].from_node) {
                            lemma_pending_positive(es, neighbor, done0.push(node), k);
                            lemma_pending_split(es, neighbor, done0, node);
                            lemma_targets_count(es, node, neighbor);
                            assert(false);
                        }
                        let i = choose|i: int| 0 <= i < done0.push(node).len() && done0.push(node)[i] == es[k].from_node;
                        assert(queue@.take(head as int)[i] == es[k].from_node);
                        assert(queue@[i] == es[k].from_node);
                        assert(queue@.take(pre.len() as int)[i] == es[k].from_node);
                    }
                    assert forall|j: int, k: int|
                        #![trigger queue@[j], es[k]]
                        0 <= j < queue@.len() && 0 <= k < es.len() && queue@[j] == es[k].to_node
                            implies queue@.take(j).contains(es[k].from_node) by {
                        if j < pre.len() {
                            assert(pre[j] == es[k].to_node);
                            assert(pre.take(j).contains(es[k].from_node));
                            assert(queue@.take(j) =~= pre.take(j));
                        }
                    }
                    assert forall|w: usize| w < n implies (queue@.contains(w) <==> #[trigger] in_degree@[w as int] == 0) by {
                        if w == neighbor {
                            assert(queue@[pre.len() as int] == w);
                        } else {
                            assert(queue@.contains(w) <==> pre.contains(w));
                        }
                    }
                    assert(queue@.take(head as int) =~= pre.take(head as int));
                    assert(queue@.take(head - 1) =~= pre.take(head - 1));
                }
            } else {
                proof {
                    assert forall|w: usize| w < n implies (queue@.contains(w) <==> #[trigger] in_degree@[w as int] == 0) by {
                        if w == neighbor {
                            if queue@.contains(w) {
                                let j = choose|j: int| 0 <= j < queue@.len() && queue@[j] == w;
                            }
                        }
                    }
                }
            }
            t = t + 1;
        }
        proof {
            assert(targets.take(tlen as int) =~= targets);
            assert(kahn_state(n as nat, es, head as nat) == kahn_step(es, kahn_state(n as nat, es, (head - 1) as nat)));
            assert forall|w: usize| w < n implies #[trigger] in_degree@[w as int] == pending_into(es, w, queue@.take(head as int)) by {
                lemma_pending_split(es, w, done0, node);
                lemma_targets_count(es, node, w);
            }
        }
    }
    proof {
        lemma_distinct_below_len(queue@, n as nat);
        lemma_kahn_settled(n as nat, es, head as nat, n as nat);
    }
    if queue.len() != n {
        proof {
            assert(queue@.take(head as int) =~= queue@);
            lemma_distinct_below_len(queue@, n as nat);
            let missing = choose_missing(queue@, n as nat);
            assert forall|w: usize| w < n && !queue@.contains(w) implies #[trigger] pending_into(es, w, queue@) > 0 by {
                assert(in_degree@[w as int] != 0);
            }
            lemma_stuck_means_cycle(n as nat, es, queue@, missing);
        }
        return Err(RuntimeError::Graph(String::from_str("Cycle detected in computational graph")));
    }
    proof {
        assert forall|k: int, i: int, j: int|
            #![trigger es[k], queue@[i], queue@[j]]
            0 <= k < es.len() && 0 <= i < queue@.len() && 0 <= j < queue@.len()
                && queue@[i] == es[k].from_node && queue@[j] == es[k].to_node implies i < j by {
            assert(queue@.take(j).contains(es[k].from_node));
            let i2 = choose|i2: int| 0 <= i2 < queue@.take(j).len() && queue@.take(j)[i2] == es[k].from_node;
            assert(queue@[i2] == queue@[i]);
        }
    }
    Ok(queue)
}

proof fn lemma_targets_in_range(n: nat, edges: Seq<Edge>, u: usize, t: int)
    requires
        edges_in_range(n, edges),
        0 <= t < targets_from(edges, u).len(),
    ensures
        targets_from(edges, u)[t] < n,
    decreases edges.len(),
{
    if edges.len() > 0 {
        let rest = edges.drop_last();
        assert(edges_in_range(n, rest)) by {
            assert forall|k: int| #![trigger rest[k]] 0 <= k < rest.len() implies rest[k].from_node < n && rest[k].to_node < n by {
                assert(rest[k] == edges[k]);
                assert(edges[k].to_node < n);
            }
        }
        if edges.last().from_node == u && t == targets_from(rest, u).len() {
            assert(edges[edges.len() - 1].to_node < n);
        } else {
            lemma_targets_in_range(n, rest, u, t);
        }
    }
}

proof fn lemma_push_keeps(s: Seq<usize>, x: usize)
    requires
        s.no_duplicates(),
        !s.contains(x),
    ensures
        s.push(x).no_duplicates(),
        forall|y: usize| #[trigger] s.push(x).contains(y) <==> s.contains(y) || y == x,
{
    assert forall|y: usize| #[trigger] s.push(x).contains(y) <==> s.contains(y) || y == x by {
        if s.push(x).contains(y) {
            let i = choose|i: int| 0 <= i < s.push(x).len() && s.push(x)[i] == y;
            if i < s.len() {
                assert(s[i] == y);
            }
        }
        if s.contains(y) {
            let i = choose|i: int| 0 <= i < s.len() && s[i] == y;
            assert(s.push(x)[i] == y);
        }
        if y == x {
            assert(s.push(x)[s.len() as int] == y);
        }
    }
    assert forall|i: int, j: int| 0 <= i < s.push(x).len() && 0 <= j < s.push(x).len() && i != j implies s.push(x)[i] != s.push(x)[j] by {
        if i < s.len() && j == s.len() {
            assert(s.contains(s[i]));
        }
        if j < s.len() && i == s.len() {
            assert(s.contains(s[j]));
        }
    }
}

/// A sequence of distinct values below `n` has at most `n` elements.
proof fn lemma_distinct_below_len(s: Seq<usize>, n: nat)
    requires
        s.no_duplicates(),
        n <= usize::MAX + 1,
        forall|j: int| 0 <= j < s.len() ==> #[trigger] s[j] < n,
    ensures
        s.len() <= n,
{
    lemma_below_len(n);
    s.unique_seq_to_set();
    assert(s.to_set().subset_of(below(n))) by {
        assert forall|x: usize| s.to_set().contains(x) implies below(n).contains(x) by {
            let i = choose|i: int| 0 <= i < s.len() && s[i] == x;
            assert(s[i] < n);
        }
    }
    vstd::set_lib::lemma_len_subset(s.to_set(), below(n));
}

/// Some node below `n` that a sequence of distinct nodes shorter than `n`
/// misses.
proof fn choose_missing(s: Seq<usize>, n: nat) -> (w: usize)
    requires
        s.no_duplicates(),
        s.len() != n,
        s.len() <= n,
        n <= usize::MAX + 1,
        forall|j: int| 0 <= j < s.len() ==> #[trigger] s[j] < n,
    ensures
        w < n,
        !s.contains(w),
{
    if forall|w: usize| w < n ==> s.contains(w) {
        // then s's set is all of below(n), so s has n elements
        lemma_below_len(n);
        s.unique_seq_to_set();
        assert(below(n).subset_of(s.to_set()));
        vstd::set_lib::lemma_len_subset(below(n), s.to_set());
        assert(false);
        0
    } else {
        choose|w: usize| w < n && !s.contains(w)
    }
}


} // verus!
