//! Computational graphs for execution planning: the dependencies between the
//! operations of a kernel, a dependency-respecting execution order, and the
//! span of steps over which each tensor is in use.

pub mod edges;
pub mod lifetimes;
pub mod order;

use vstd::prelude::*;
use crate::RuntimeError;
use crate::types::{DType, Shape};
use std::collections::HashMap;
use self::edges::{dependency_edges, dependency_edges_of, edges_sorted, produces};
use self::lifetimes::{lifetimes_of, record_step, lemma_lifetimes_step};
use self::order::{cycle_message, dependency_order, edges_in_range, has_topological_order, is_topological_order, kahn_order};

verus! {

/// Identifies a tensor of a kernel.
pub type TensorId = usize;

/// Where a tensor lives.
#[derive(Debug, Clone, Copy, PartialEq, Eq, Structural)]
pub enum MemoryScope {
    Global,
    Shared,
    Local,
}

/// Description of a tensor of a kernel.
#[derive(Debug, Clone)]
pub struct TensorInfo {
    pub name: String,
    pub shape: Shape,
    pub dtype: DType,
    pub scope: MemoryScope,
}

/// An access by an operation to a tensor.
#[derive(Debug, Clone, Copy, PartialEq, Eq, Structural)]
pub struct TensorAccess {
    pub tensor_id: TensorId,
}

/// An operation of a kernel, by the tensors it reads and writes.
#[derive(Debug, Clone, Copy, PartialEq, Eq, Structural)]
pub enum Operation {
    /// `result = lhs (op) rhs`
    Binary { lhs: TensorAccess, rhs: TensorAccess, result: TensorAccess },
    /// `result = (op) input`
    Unary { input: TensorAccess, result: TensorAccess },
    /// `result = source`, read from memory
    Load { result: TensorAccess, source: TensorAccess },
    /// `dest = value`, written to memory
    Store { dest: TensorAccess, value: TensorAccess },
    /// Synchronisation point; touches no tensor.
    Barrier,
}

/// Tensors that an operation reads, in order.
pub open spec fn op_inputs(op: Operation) -> Seq<TensorId> {
    match op {
        Operation::Binary { lhs, rhs, .. } => seq![lhs.tensor_id, rhs.tensor_id],
        Operation::Unary { input, .. } => seq![input.tensor_id],
        Operation::Load { source, .. } => seq![source.tensor_id],
        Operation::Store { value, .. } => seq![value.tensor_id],
        Operation::Barrier => Seq::empty(),
    }
}

/// Tensors that an operation writes.
pub open spec fn op_outputs(op: Operation) -> Seq<TensorId> {
    match op {
        Operation::Binary { result, .. } => seq![result.tensor_id],
        Operation::Unary { result, .. } => seq![result.tensor_id],
        Operation::Load { result, .. } => seq![result.tensor_id],
        Operation::Store { dest, .. } => seq![dest.tensor_id],
        Operation::Barrier => Seq::empty(),
    }
}

/// A kernel: a named list of operations over described tensors.
#[derive(Debug)]
pub struct Kernel {
    pub name: String,
    pub operations: Vec<Operation>,
    pub tensors: HashMap<TensorId, TensorInfo>,
}

/// Node of the computational graph: one operation, with the tensors it
/// reads and writes.
#[derive(Debug)]
pub struct Node {
    pub id: usize,
    pub operation: Operation,
    pub inputs: Vec<TensorId>,
    pub outputs: Vec<TensorId>,
}

/// The value of a node.
pub struct NodeView {
    pub id: usize,
    pub operation: Operation,
    pub inputs: Seq<TensorId>,
    pub outputs: Seq<TensorId>,
}

impl View for Node {
    type V = NodeView;

    open spec fn view(&self) -> NodeView {
        NodeView {
            id: self.id,
            operation: self.operation,
            inputs: self.inputs@,
            outputs: self.outputs@,
        }
    }
}

impl Clone for Node {
    fn clone(&self) -> (n: Self)
        ensures
            n@ == self@,
    {
        Node {
            id: self.id,
            operation: self.operation,
            inputs: self.inputs.clone(),
            outputs: self.outputs.clone(),
        }
    }
}

/// The values of a list of nodes.
pub open spec fn nodes_view(nodes: Seq<Node>) -> Seq<NodeView> {
    nodes.map_values(|n: Node| n@)
}

/// Dependency of operation `to_node` on the tensor that `from_node` produces.
#[derive(Debug, Clone, Copy, PartialEq, Eq, Structural)]
pub struct Edge {
    pub from_node: usize,
    pub to_node: usize,
    pub tensor_id: TensorId,
}

/// The node that the graph holds for operation `i` of a kernel.
pub open spec fn node_of(i: int, op: Operation) -> NodeView {
    NodeView { id: i as usize, operation: op, inputs: op_inputs(op), outputs: op_outputs(op) }
}

/// The nodes that the graph holds for a kernel's operations, one per
/// operation and in the same order.
pub open spec fn nodes_of(ops: Seq<Operation>) -> Seq<NodeView> {
    Seq::new(ops.len(), |i: int| node_of(i, ops[i]))
}

/// Edges produced for nodes lead between the nodes.
pub proof fn lemma_dependency_edges_in_range(nodes: Seq<NodeView>, edges: Seq<Edge>)
    requires
        dependency_edges_of(nodes, edges),
    ensures
        edges_in_range(nodes.len(), edges),
{
    assert forall|k: int| #![trigger edges[k]] 0 <= k < edges.len() implies edges[k].from_node < nodes.len() && edges[k].to_node < nodes.len() by {
        assert(produces(nodes, edges[k].tensor_id, edges[k].from_node as int));
    }
}

/// Tensor IDs of tensor accesses, in order.
fn extract_tensor_ids(accesses: &[TensorAccess]) -> (ids: Vec<TensorId>)
    ensures
        ids@ == accesses@.map_values(|a: TensorAccess| a.tensor_id),
{
    let mut ids: Vec<TensorId> = Vec::new();
    let mut i: usize = 0;
    while i < accesses.len()
        invariant
            i <= accesses@.len(),
            ids@ == accesses@.take(i as int).map_values(|a: TensorAccess| a.tensor_id),
        decreases accesses@.len() - i,
    {
        assert(accesses@.take(i + 1) =~= accesses@.take(i as int).push(accesses@[i as int]));
        ids.push(accesses[i].tensor_id);
        i = i + 1;
    }
    assert(accesses@.take(i as int) =~= accesses@);
    ids
}

/// The tensors that an operation reads and writes.
fn operation_tensors(op: &Operation) -> (r: (Vec<TensorId>, Vec<TensorId>))
    ensures
        r.0@ == op_inputs(*op),
        r.1@ == op_outputs(*op),
{
    match op {
        Operation::Binary { lhs, rhs, result } => {
            let inputs = extract_tensor_ids(&[*lhs, *rhs]);
            let outputs = extract_tensor_ids(&[*result]);
            assert(inputs@ =~= op_inputs(*op));
            assert(outputs@ =~= op_outputs(*op));
            (inputs, outputs)
        },
        Operation::Unary { input, result } => {
            let inputs = extract_tensor_ids(&[*input]);
            let outputs = extract_tensor_ids(&[*result]);
            assert(inputs@ =~= op_inputs(*op));
            assert(outputs@ =~= op_outputs(*op));
            (inputs, outputs)
        },
        Operation::Load { result, source } => {
            let inputs = extract_tensor_ids(&[*source]);
            let outputs = extract_tensor_ids(&[*result]);
            assert(inputs@ =~= op_inputs(*op));
            assert(outputs@ =~= op_outputs(*op));
            (inputs, outputs)
        },
        Operation::Store { dest, value } => {
            let inputs = extract_tensor_ids(&[*value]);
            let outputs = extract_tensor_ids(&[*dest]);
            assert(inputs@ =~= op_inputs(*op));
            assert(outputs@ =~= op_outputs(*op));
            (inputs, outputs)
        },
        Operation::Barrier => {
            let inputs: Vec<TensorId> = Vec::new();
            let outputs: Vec<TensorId> = Vec::new();
            assert(inputs@ =~= op_inputs(*op));
            assert(outputs@ =~= op_outputs(*op));
            (inputs, outputs)
        },
    }
}

/// Execution plan: the graph's nodes, an order that respects their
/// dependencies, and the span of steps over which each tensor is in use.
#[derive(Debug)]
pub struct ExecutionPlan {
    pub nodes: Vec<Node>,
    pub execution_order: Vec<usize>,
    pub tensor_lifetimes: HashMap<TensorId, (usize, usize)>,
}

/// Computational graph of a kernel: its operations and the data
/// dependencies between them.
#[derive(Debug)]
pub struct ComputationGraph {
    pub name: String,
    pub nodes: Vec<Node>,
    pub edges: Vec<Edge>,
    pub tensor_info: HashMap<TensorId, TensorInfo>,
}

impl ComputationGraph {
    /// The graph is the one built for `kernel`.
    pub open spec fn built_from(self, kernel: Kernel) -> bool {
        &&& self.name@ == kernel.name@
        &&& nodes_view(self.nodes@) == nodes_of(kernel.operations@)
        &&& dependency_edges_of(nodes_view(self.nodes@), self.edges@)
        &&& edges_sorted(self.edges@)
        &&& self.tensor_info@ == kernel.tensors@
    }

    /// Builds the computational graph of a kernel: one node per operation,
    /// and an edge from the last operation that writes a tensor to each
    /// read of that tensor.
    pub fn from_lcir(kernel: &Kernel) -> (r: Result<Self, RuntimeError>)
        ensures
            r matches Ok(g) && g.built_from(*kernel),
    {
        let mut nodes: Vec<Node> = Vec::new();
        let ghost ops = kernel.operations@;
        let mut op_index: usize = 0;
        while op_index < kernel.operations.len()
            invariant
                ops == kernel.operations@,
                op_index <= ops.len(),
                nodes_view(nodes@) == nodes_of(ops).take(op_index as int),
            decreases ops.len() - op_index,
        {
            let operation = kernel.operations[op_index];
            let (inputs, outputs) = operation_tensors(&operation);
            let node = Node { id: op_index, operation, inputs, outputs };
            let ghost pre = nodes@;
            nodes.push(node);
            proof {
                assert(nodes_view(nodes@) =~= nodes_view(pre).push(nodes@[op_index as int]@));
                assert(nodes_of(ops).take(op_index + 1) =~= nodes_of(ops).take(op_index as int).push(node_of(op_index as int, ops[op_index as int])));
            }
            op_index = op_index + 1;
        }
        assert(nodes_of(ops).take(ops.len() as int) =~= nodes_of(ops));
        proof {
            assert forall|i: int| 0 <= i < nodes@.len() implies (#[trigger] nodes@[i]).outputs@.len() <= 1 by {
                assert(nodes_view(nodes@)[i] == nodes_of(ops)[i]);
                assert(nodes@[i]@.outputs == op_outputs(ops[i]));
            }
        }
        let edges = dependency_edges(&nodes);
        Ok(ComputationGraph {
            name: kernel.name.clone(),
            nodes,
            edges,
            tensor_info: kernel.tensors.clone(),
        })
    }

    /// For each tensor that the nodes of `execution_order` touch, the step
    /// of its first use and the step of its last use, a use being a read or
    /// a write.
    pub fn analyze_tensor_lifetimes(&self, execution_order: &[usize]) -> (m: HashMap<TensorId, (usize, usize)>)
        requires
            forall|s: int| 0 <= s < execution_order@.len() ==> #[trigger] execution_order@[s] < self.nodes@.len(),
        ensures
            lifetimes_of(nodes_view(self.nodes@), execution_order@, m@),
    {
        broadcast use vstd::std_specs::hash::group_hash_axioms;
        let ghost nv = nodes_view(self.nodes@);
        let ghost order = execution_order@;
        let mut lifetimes: HashMap<TensorId, (usize, usize)> = HashMap::new();
        let mut step: usize = 0;
        proof {
            assert(order.take(0) =~= Seq::<usize>::empty());
        }
        while step < execution_order.len()
            invariant
                nv == nodes_view(self.nodes@),
                order == execution_order@,
                step <= order.len(),
                forall|s: int| 0 <= s < order.len() ==> #[trigger] order[s] < nv.len(),
                lifetimes_of(nv, order.take(step as int), lifetimes@),
            decreases order.len() - step,
        {
            let node_id = execution_order[step];
            let node = &self.nodes[node_id];
            let ghost old_map = lifetimes@;
            record_step(&mut lifetimes, step, &node.inputs, &node.outputs);
            proof {
                assert(nv[node_id as int] == node@);
                lemma_lifetimes_step(nv, order, step as int, old_map, lifetimes@);
            }
            step = step + 1;
        }
        assert(order.take(order.len() as int) =~= order);
        lifetimes
    }

    /// An execution order of the nodes in which every node comes after the
    /// nodes it depends on, or an error when the dependencies hold a cycle.
    pub fn topological_sort(&self) -> (r: Result<Vec<usize>, RuntimeError>)
        requires
            edges_in_range(self.nodes@.len(), self.edges@),
        ensures
            match r {
                Ok(order) => order@ == kahn_order(self.nodes@.len(), self.edges@)
                    && is_topological_order(self.nodes@.len(), self.edges@, order@),
                Err(e) => e matches RuntimeError::Graph(msg) && msg@ == cycle_message()
                    && kahn_order(self.nodes@.len(), self.edges@).len() != self.nodes@.len()
                    && !has_topological_order(self.nodes@.len(), self.edges@),
            },
    {
        dependency_order(self.nodes.len(), &self.edges)
    }
}


/// Copies of the nodes.
fn clone_nodes(nodes: &Vec<Node>) -> (r: Vec<Node>)
    ensures
        nodes_view(r@) == nodes_view(nodes@),
{
    let mut r: Vec<Node> = Vec::new();
    let mut i: usize = 0;
    while i < nodes.len()
        invariant
            i <= nodes@.len(),
            nodes_view(r@) == nodes_view(nodes@).take(i as int),
        decreases nodes@.len() - i,
    {
        let ghost pre = r@;
        r.push(nodes[i].clone());
        proof {
            assert(nodes_view(r@) =~= nodes_view(pre).push(r@[i as int]@));
            assert(nodes_view(nodes@).take(i + 1) =~= nodes_view(nodes@).take(i as int).push(nodes@[i as int]@));
        }
        i = i + 1;
    }
    assert(nodes_view(nodes@).take(nodes@.len() as int) =~= nodes_view(nodes@));
    r
}

impl ExecutionPlan {
    /// Plans the execution of a graph: a dependency-respecting order of its
    /// nodes and the lifetimes of its tensors along that order; fails when
    /// the dependencies hold a cycle.
    pub fn from_graph(graph: &ComputationGraph) -> (r: Result<Self, RuntimeError>)
        requires
            edges_in_range(graph.nodes@.len(), graph.edges@),
        ensures
            match r {
                Ok(plan) => {
                    &&& nodes_view(plan.nodes@) == nodes_view(graph.nodes@)
                    &&& plan.execution_order@ == kahn_order(graph.nodes@.len(), graph.edges@)
                    &&& is_topological_order(graph.nodes@.len(), graph.edges@, plan.execution_order@)
                    &&& lifetimes_of(nodes_view(graph.nodes@), plan.execution_order@, plan.tensor_lifetimes@)
                },
                Err(e) => e matches RuntimeError::Graph(msg) && msg@ == cycle_message()
                    && kahn_order(graph.nodes@.len(), graph.edges@).len() != graph.nodes@.len()
                    && !has_topological_order(graph.nodes@.len(), graph.edges@),
            },
    {
        let execution_order = graph.topological_sort()?;
        let tensor_lifetimes = graph.analyze_tensor_lifetimes(execution_order.as_slice());
        Ok(ExecutionPlan { nodes: clone_nodes(&graph.nodes), execution_order, tensor_lifetimes })
    }
}

/// A kernel in which the last write of every tensor comes before each
/// read of it always has an execution plan: its graph holds no cycle.
pub proof fn lemma_writes_before_reads_plan(kernel: Kernel, graph: ComputationGraph)
    requires
        graph.built_from(kernel),
        forall|t: TensorId, p: int, c: int|
            #![trigger produces(nodes_view(graph.nodes@), t, p), nodes_view(graph.nodes@)[c]]
            produces(nodes_view(graph.nodes@), t, p) && 0 <= c < graph.nodes@.len()
                && nodes_view(graph.nodes@)[c].inputs.contains(t) ==> p < c,
    ensures
        has_topological_order(graph.nodes@.len(), graph.edges@),
{
    let nv = nodes_view(graph.nodes@);
    let es = graph.edges@;
    assert forall|k: int| 0 <= k < es.len() implies (#[trigger] es[k]).from_node < es[k].to_node by {
        assert(produces(nv, es[k].tensor_id, es[k].from_node as int));
        assert(nv[es[k].to_node as int].inputs.contains(es[k].tensor_id));
    }
    assert(graph.nodes@.len() == graph.nodes.len());
    self::order::lemma_forward_edges_are_ordered(graph.nodes@.len(), es);
}

} // verus!
