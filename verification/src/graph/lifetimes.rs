//! Lifetimes of tensors along an execution order: the step of first use and
//! the step of last use, a use being a read or a write.

use vstd::prelude::*;
use crate::graph::{NodeView, TensorId};
use std::collections::HashMap;

verus! {

/// Step `s` of `order` reads or writes tensor `t`.
pub open spec fn step_uses(nodes: Seq<NodeView>, order: Seq<usize>, s: int, t: TensorId) -> bool {
    nodes[order[s] as int].inputs.contains(t) || nodes[order[s] as int].outputs.contains(t)
}

/// `s` is the first step of `order` that uses `t`.
pub open spec fn is_first_use(nodes: Seq<NodeView>, order: Seq<usize>, t: TensorId, s: int) -> bool {
    &&& 0 <= s < order.len()
    &&& step_uses(nodes, order, s, t)
    &&& forall|s2: int| 0 <= s2 < s ==> !#[trigger] step_uses(nodes, order, s2, t)
}

/// `s` is the last step of `order` that uses `t`.
pub open spec fn is_last_use(nodes: Seq<NodeView>, order: Seq<usize>, t: TensorId, s: int) -> bool {
    &&& 0 <= s < order.len()
    &&& step_uses(nodes, order, s, t)
    &&& forall|s2: int| s < s2 < order.len() ==> !#[trigger] step_uses(nodes, order, s2, t)
}

/// `m` maps each tensor that `order` uses to (first use, last use).
pub open spec fn lifetimes_of(nodes: Seq<NodeView>, order: Seq<usize>, m: Map<TensorId, (usize, usize)>) -> bool {
    &&& forall|t: TensorId| #[trigger] m.contains_key(t) <==> exists|s: int| 0 <= s < order.len() && step_uses(nodes, order, s, t)
    &&& forall|t: TensorId| #[trigger] m.contains_key(t) ==> {
        &&& is_first_use(nodes, order, t, m[t].0 as int)
        &&& is_last_use(nodes, order, t, m[t].1 as int)
    }
}

/// Records a use at `step` of each tensor of `ids`: the tensor's span
/// starts here if it has none, and ends here.
fn record_uses(lifetimes: &mut HashMap<TensorId, (usize, usize)>, step: usize, ids: &Vec<TensorId>)
    ensures
        forall|t: TensorId| #[trigger] final(lifetimes)@.contains_key(t) <==> old(lifetimes)@.contains_key(t) || ids@.contains(t),
        forall|t: TensorId| #![trigger final(lifetimes)@[t]] ids@.contains(t) ==> final(lifetimes)@[t] == (if old(lifetimes)@.contains_key(t) { old(lifetimes)@[t].0 } else { step }, step),
        forall|t: TensorId| #![trigger final(lifetimes)@[t]] !ids@.contains(t) && old(lifetimes)@.contains_key(t) ==> final(lifetimes)@[t] == old(lifetimes)@[t],
{
    broadcast use vstd::std_specs::hash::group_hash_axioms;
    let ghost start = lifetimes@;
    let mut i: usize = 0;
    while i < ids.len()
        invariant
            i <= ids@.len(),
            forall|t: TensorId| #[trigger] lifetimes@.contains_key(t) <==> start.contains_key(t) || ids@.take(i as int).contains(t),
            forall|t: TensorId| #![trigger lifetimes@[t]] ids@.take(i as int).contains(t) ==> lifetimes@[t] == (if start.contains_key(t) { start[t].0 } else { step }, step),
            forall|t: TensorId| #![trigger lifetimes@[t]] !ids@.take(i as int).contains(t) && start.contains_key(t) ==> lifetimes@[t] == start[t],
        decreases ids@.len() - i,
    {
        let t = ids[i];
        let first = match lifetimes.get(&t) {
            Some(span) => span.0,
            None => step,
        };
        lifetimes.insert(t, (first, step));
        proof {
            assert forall|x: TensorId| #[trigger] ids@.take(i + 1).contains(x) <==> ids@.take(i as int).contains(x) || x == t by {
                assert(ids@.take(i + 1) =~= ids@.take(i as int).push(t));
                lemma_contains_push(ids@.take(i as int), t, x);
            }
        }
        i = i + 1;
    }
    assert(ids@.take(i as int) =~= ids@);
}

/// Records one step's reads and writes in a map of lifetimes: each tensor
/// that the step reads or writes starts its span here if it has none, and
/// ends it here.
pub(crate) fn record_step(lifetimes: &mut HashMap<TensorId, (usize, usize)>, step: usize, inputs: &Vec<TensorId>, outputs: &Vec<TensorId>)
    ensures
        forall|t: TensorId| #[trigger] final(lifetimes)@.contains_key(t) <==> old(lifetimes)@.contains_key(t) || inputs@.contains(t) || outputs@.contains(t),
        forall|t: TensorId| #![trigger final(lifetimes)@[t]] inputs@.contains(t) || outputs@.contains(t) ==> final(lifetimes)@[t] == (if old(lifetimes)@.contains_key(t) { old(lifetimes)@[t].0 } else { step }, step),
        forall|t: TensorId| #![trigger final(lifetimes)@[t]] !inputs@.contains(t) && !outputs@.contains(t) && old(lifetimes)@.contains_key(t) ==> final(lifetimes)@[t] == old(lifetimes)@[t],
{
    let ghost start = lifetimes@;
    record_uses(lifetimes, step, inputs);
    let ghost mid = lifetimes@;
    record_uses(lifetimes, step, outputs);
    assert forall|t: TensorId| #![trigger lifetimes@[t]] inputs@.contains(t) || outputs@.contains(t) implies lifetimes@[t] == (if start.contains_key(t) { start[t].0 } else { step }, step) by {
        if inputs@.contains(t) {
            assert(mid.contains_key(t));
            assert(mid[t] == (if start.contains_key(t) { start[t].0 } else { step }, step));
        }
    }
}

proof fn lemma_contains_push(s: Seq<TensorId>, x: TensorId, y: TensorId)
    ensures
        s.push(x).contains(y) <==> s.contains(y) || y == x,
{
    if s.push(x).contains(y) {
        let i = choose|i: int| 0 <= i < s.push(x).len() && s.push(x)[i] == y;
        if i < s.len() {
            assert(s[i] == y);
        }
    }
    if s.contains(y) {
        let i = choose|i: int| 0 <= i < s.len() && s[i] == y;
        assert(s.push(x)[i] == y);
    }
    if y == x {
        assert(s.push(x)[s.len() as int] == y);
    }
}

/// Recording step `s` extends lifetimes over the first `s` steps to
/// lifetimes over the first `s + 1` steps.
pub(crate) proof fn lemma_lifetimes_step(nodes: Seq<NodeView>, order: Seq<usize>, s: int, old_map: Map<TensorId, (usize, usize)>, new_map: Map<TensorId, (usize, usize)>)
    requires
        0 <= s < order.len(),
        s <= usize::MAX,
        order[s] < nodes.len(),
        lifetimes_of(nodes, order.take(s), old_map),
        ({
            let inputs = nodes[order[s] as int].inputs;
            let outputs = nodes[order[s] as int].outputs;
            &&& forall|t: TensorId| #[trigger] new_map.contains_key(t) <==> old_map.contains_key(t) || inputs.contains(t) || outputs.contains(t)
            &&& forall|t: TensorId| #![trigger new_map[t]] inputs.contains(t) || outputs.contains(t) ==> new_map[t] == (if old_map.contains_key(t) { old_map[t].0 } else { s as usize }, s as usize)
            &&& forall|t: TensorId| #![trigger new_map[t]] !inputs.contains(t) && !outputs.contains(t) && old_map.contains_key(t) ==> new_map[t] == old_map[t]
        }),
    ensures
        lifetimes_of(nodes, order.take(s + 1), new_map),
{
    let pre = order.take(s);
    let cur = order.take(s + 1);
    assert forall|k: int| 0 <= k < s implies #[trigger] cur[k] == pre[k] by {}
    assert(cur[s] == order[s]);
    assert forall|k: int, t: TensorId| 0 <= k < s implies step_uses(nodes, cur, k, t) == step_uses(nodes, pre, k, t) by {
        assert(cur[k] == pre[k]);
    }
    assert forall|t: TensorId| #[trigger] new_map.contains_key(t) <==> exists|k: int| 0 <= k < cur.len() && step_uses(nodes, cur, k, t) by {
        if new_map.contains_key(t) {
            if old_map.contains_key(t) {
                let k = choose|k: int| 0 <= k < pre.len() && step_uses(nodes, pre, k, t);
                assert(step_uses(nodes, cur, k, t));
            } else {
                assert(step_uses(nodes, cur, s, t));
            }
        }
        if exists|k: int| 0 <= k < cur.len() && step_uses(nodes, cur, k, t) {
            let k = choose|k: int| 0 <= k < cur.len() && step_uses(nodes, cur, k, t);
            if k < s {
                assert(step_uses(nodes, pre, k, t));
            }
        }
    }
    assert forall|t: TensorId| #[trigger] new_map.contains_key(t) implies {
        &&& is_first_use(nodes, cur, t, new_map[t].0 as int)
        &&& is_last_use(nodes, cur, t, new_map[t].1 as int)
    } by {
        let inputs = nodes[order[s] as int].inputs;
        let outputs = nodes[order[s] as int].outputs;
        if old_map.contains_key(t) {
            assert(is_first_use(nodes, pre, t, old_map[t].0 as int));
            assert(is_first_use(nodes, cur, t, old_map[t].0 as int));
        } else {
            assert forall|k: int| 0 <= k < s implies !#[trigger] step_uses(nodes, cur, k, t) by {
                if step_uses(nodes, cur, k, t) {
                    assert(step_uses(nodes, pre, k, t));
                }
            }
        }
        if inputs.contains(t) || outputs.contains(t) {
            assert(step_uses(nodes, cur, s, t));
        } else {
            assert(!step_uses(nodes, cur, s, t));
            assert(is_last_use(nodes, pre, t, old_map[t].1 as int));
        }
    }
}

/// Every lifetime starts no later than it ends: a tensor's last use is not
/// before its first use.
pub proof fn lemma_lifetime_ordered(nodes: Seq<NodeView>, order: Seq<usize>, m: Map<TensorId, (usize, usize)>, t: TensorId)
    requires
        lifetimes_of(nodes, order, m),
        m.contains_key(t),
    ensures
        m[t].0 <= m[t].1,
{
    assert(is_first_use(nodes, order, t, m[t].0 as int));
    assert(is_last_use(nodes, order, t, m[t].1 as int));
    assert(step_uses(nodes, order, m[t].1 as int, t));
}

} // verus!
