use std::collections::HashMap;
use laminax_runtime::graph::{ComputationGraph, Edge, ExecutionPlan, Kernel, MemoryScope, Node, Operation, TensorAccess, TensorInfo};
use laminax_runtime::graph::order::dependency_order;
use laminax_runtime::types::{DType, Shape};
use laminax_runtime::RuntimeError;

fn t(id: usize) -> TensorAccess {
    TensorAccess { tensor_id: id }
}

fn info(name: &str) -> TensorInfo {
    TensorInfo { name: name.to_string(), shape: Shape::from(vec![4]), dtype: DType::I32, scope: MemoryScope::Global }
}

fn kernel(ops: Vec<Operation>) -> Kernel {
    let mut tensors = HashMap::new();
    for (id, name) in ["A", "B", "C", "D"].iter().enumerate() {
        tensors.insert(id, info(name));
    }
    Kernel { name: "add_kernel".to_string(), operations: ops, tensors }
}

fn sorted_edges(g: &ComputationGraph) -> Vec<(usize, usize, usize)> {
    let mut e: Vec<_> = g.edges.iter().map(|e| (e.from_node, e.to_node, e.tensor_id)).collect();
    e.sort();
    e
}

#[test]
fn add_kernel_graph_has_one_node() {
    let k = kernel(vec![Operation::Binary { lhs: t(0), rhs: t(1), result: t(2) }]);
    let g = ComputationGraph::from_lcir(&k).unwrap();
    assert_eq!(g.name, "add_kernel");
    assert_eq!(g.nodes.len(), 1);
    assert_eq!(g.nodes[0].id, 0);
    assert_eq!(g.nodes[0].inputs, vec![0, 1]);
    assert_eq!(g.nodes[0].outputs, vec![2]);
    assert!(g.edges.is_empty());
    assert_eq!(g.tensor_info.len(), 4);
    assert_eq!(g.topological_sort().unwrap(), vec![0]);
}

#[test]
fn dependencies_lead_from_last_writer_to_each_read() {
    // 0: C = A + B; 1: D = -C; 2: C = load D; 3: store A <- C; 4: barrier
    let k = kernel(vec![
        Operation::Binary { lhs: t(0), rhs: t(1), result: t(2) },
        Operation::Unary { input: t(2), result: t(3) },
        Operation::Load { result: t(2), source: t(3) },
        Operation::Store { dest: t(0), value: t(2) },
        Operation::Barrier,
    ]);
    let g = ComputationGraph::from_lcir(&k).unwrap();
    assert_eq!(g.nodes[2].inputs, vec![3]);
    assert_eq!(g.nodes[3].inputs, vec![2]);
    assert_eq!(g.nodes[3].outputs, vec![0]);
    assert!(g.nodes[4].inputs.is_empty() && g.nodes[4].outputs.is_empty());
    // C is last written by node 2 and read by nodes 1 and 3; D written by 1,
    // read by 2; A last written by node 3, read by node 0.
    assert_eq!(sorted_edges(&g), vec![(1, 2, 3), (2, 1, 2), (2, 3, 2), (3, 0, 0)]);
    // node 1 and node 2 depend on each other: a cycle
    assert_eq!(g.topological_sort(), Err(RuntimeError::Graph("Cycle detected in computational graph".to_string())));
    let plan = ExecutionPlan::from_graph(&g);
    assert!(plan.is_err());
}

#[test]
fn chain_is_ordered_by_dependencies() {
    // 0: C = A + B; 1: D = -C; 2: store B <- D
    let k = kernel(vec![
        Operation::Binary { lhs: t(0), rhs: t(1), result: t(2) },
        Operation::Unary { input: t(2), result: t(3) },
        Operation::Store { dest: t(1), value: t(3) },
    ]);
    let g = ComputationGraph::from_lcir(&k).unwrap();
    // B is last written by node 2 and read by node 0: a dependency backwards
    assert_eq!(sorted_edges(&g), vec![(0, 1, 2), (1, 2, 3), (2, 0, 1)]);
    assert!(g.topological_sort().is_err());

    let k = kernel(vec![
        Operation::Binary { lhs: t(0), rhs: t(1), result: t(2) },
        Operation::Unary { input: t(2), result: t(3) },
        Operation::Load { result: t(0), source: t(3) },
    ]);
    let g = ComputationGraph::from_lcir(&k).unwrap();
    assert_eq!(sorted_edges(&g), vec![(0, 1, 2), (1, 2, 3), (2, 0, 0)]);
}

#[test]
fn independent_nodes_keep_their_order() {
    let k = kernel(vec![
        Operation::Unary { input: t(0), result: t(1) },
        Operation::Unary { input: t(0), result: t(2) },
        Operation::Binary { lhs: t(1), rhs: t(2), result: t(3) },
    ]);
    let g = ComputationGraph::from_lcir(&k).unwrap();
    assert_eq!(sorted_edges(&g), vec![(0, 2, 1), (1, 2, 2)]);
    let order = g.topological_sort().unwrap();
    assert_eq!(order, vec![0, 1, 2]);
    let plan = ExecutionPlan::from_graph(&g).unwrap();
    assert_eq!(plan.execution_order, vec![0, 1, 2]);
    assert_eq!(plan.nodes.len(), 3);
    // A read at steps 0 and 1; B written at 0, read at 2; C written at 1,
    // read at 2; D written at 2 and never read.
    assert_eq!(plan.tensor_lifetimes.get(&0), Some(&(0, 1)));
    assert_eq!(plan.tensor_lifetimes.get(&1), Some(&(0, 2)));
    assert_eq!(plan.tensor_lifetimes.get(&2), Some(&(1, 2)));
    assert_eq!(plan.tensor_lifetimes.get(&3), Some(&(2, 2)));
    assert_eq!(plan.tensor_lifetimes.len(), 4);
}

#[test]
fn kahn_order_visits_ready_nodes_first_in_first_out() {
    let e = |a, b| Edge { from_node: a, to_node: b, tensor_id: 0 };
    let edges = vec![e(3, 0), e(3, 1), e(0, 2), e(1, 2)];
    assert_eq!(dependency_order(4, &edges).unwrap(), vec![3, 0, 1, 2]);
    let edges = vec![e(2, 1), e(1, 0)];
    assert_eq!(dependency_order(3, &edges).unwrap(), vec![2, 1, 0]);
    assert!(dependency_order(2, &vec![e(0, 0)]).is_err());
    assert_eq!(dependency_order(0, &vec![]).unwrap(), Vec::<usize>::new());
    // duplicated edges are counted twice and removed twice
    assert_eq!(dependency_order(2, &vec![e(0, 1), e(0, 1)]).unwrap(), vec![0, 1]);
}

#[test]
fn lifetimes_follow_a_given_order() {
    let k = kernel(vec![
        Operation::Load { result: t(1), source: t(0) },
        Operation::Store { dest: t(2), value: t(1) },
    ]);
    let g = ComputationGraph::from_lcir(&k).unwrap();
    let m = g.analyze_tensor_lifetimes(&[1, 0, 1]);
    // step 0: node 1 reads B writes C; step 1: node 0 reads A writes B;
    // step 2: node 1 again
    assert_eq!(m.get(&1), Some(&(0, 2)));
    assert_eq!(m.get(&2), Some(&(0, 2)));
    assert_eq!(m.get(&0), Some(&(1, 1)));
    assert!(g.analyze_tensor_lifetimes(&[]).is_empty());
    let n: &Node = &g.nodes[1];
    assert_eq!(n.clone().outputs, vec![2]);
}

#[test]
fn lifetimes_end_at_the_last_write_too() {
    let k = kernel(vec![
        Operation::Load { result: t(1), source: t(0) },
        Operation::Load { result: t(1), source: t(2) },
    ]);
    let g = ComputationGraph::from_lcir(&k).unwrap();
    let m = g.analyze_tensor_lifetimes(&[0, 1]);
    // tensor 1 is written at steps 0 and 1 and never read
    assert_eq!(m.get(&1), Some(&(0, 1)));
    assert_eq!(m.get(&0), Some(&(0, 0)));
    assert_eq!(m.get(&2), Some(&(1, 1)));
}

#[test]
fn nodes_without_dependencies_keep_index_order() {
    let k = kernel(vec![Operation::Barrier, Operation::Barrier, Operation::Barrier]);
    let g = ComputationGraph::from_lcir(&k).unwrap();
    assert!(g.edges.is_empty());
    assert_eq!(g.topological_sort().unwrap(), vec![0, 1, 2]);
    assert_eq!(ExecutionPlan::from_graph(&g).unwrap().execution_order, vec![0, 1, 2]);
}
