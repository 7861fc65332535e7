use autodiff::backend::{Backend, CpuHeap};
use autodiff::graph::{Graph, Node, NodeHash};
use autodiff::ops::Op;

#[test]
fn graph_starts_empty() {
    let g: Graph<f32, CpuHeap> = Graph::new(CpuHeap);
    assert_eq!(g.nodes.len(), 0);
    assert_eq!(g.data.len(), 0);
}

#[test]
fn scalar_slots_hold_their_value() {
    let mut g: Graph<f32, CpuHeap> = Graph::new(CpuHeap);
    let a = g.scalar(2.5f32, "a").unwrap();
    let b = g.scalar(4.0f32, "b").unwrap();
    assert_eq!(g.data.len(), 2);
    assert_eq!(g.get_scalar(&a.0).unwrap(), 2.5);
    assert_eq!(g.get_scalar(&b.0).unwrap(), 4.0);
    assert_eq!(a.0.symbol(), "a");
    assert_eq!(a.0.data_id(), 0);
    assert_eq!(b.0.data_id(), 1);
}

#[test]
fn matrix_slots_hold_their_values() {
    let mut g: Graph<f32, CpuHeap> = Graph::new(CpuHeap);
    let m = g.matrix::<2, 3>(vec![1., 2., 3., 4., 5., 6.]).unwrap();
    assert_eq!(m.0.data_id(), 0);
    assert_eq!(g.get_matrix(&m.0).unwrap(), vec![1., 2., 3., 4., 5., 6.]);
}

#[test]
fn compiling_shares_common_subexpressions() {
    let mut g: Graph<f32, CpuHeap> = Graph::new(CpuHeap);
    let a = g.scalar(2.0f32, "a").unwrap();
    let b = g.scalar(3.0f32, "b").unwrap();
    let first = autodiff::expr::Expr(a.0, std::marker::PhantomData)
        + autodiff::expr::Expr(b.0, std::marker::PhantomData);
    let again = autodiff::expr::Expr(a.0, std::marker::PhantomData)
        + autodiff::expr::Expr(b.0, std::marker::PhantomData);
    let i1 = first.compile(&mut g).unwrap();
    let i2 = again.compile(&mut g).unwrap();
    assert_eq!(i1.id(), i2.id());
    // Two leaves and one sum: the second compilation added nothing.
    assert_eq!(g.nodes.len(), 3);
}

#[test]
fn commuted_sum_reuses_the_slot() {
    let mut g: Graph<f32, CpuHeap> = Graph::new(CpuHeap);
    let a = g.scalar(2.0f32, "a").unwrap();
    let b = g.scalar(3.0f32, "b").unwrap();
    let a1 = autodiff::expr::Expr(a.0, std::marker::PhantomData);
    let b1 = autodiff::expr::Expr(b.0, std::marker::PhantomData);
    let a2 = autodiff::expr::Expr(a.0, std::marker::PhantomData);
    let b2 = autodiff::expr::Expr(b.0, std::marker::PhantomData);
    let i1 = (a1 + b1).compile(&mut g).unwrap();
    let i2 = (b2 + a2).compile(&mut g).unwrap();
    assert_eq!(i1.id(), i2.id());
    // Two leaves and one sum: the commuted sum shares the slot.
    assert_eq!(g.nodes.len(), 3);

    // A product of the same operands is a different node.
    let a3 = autodiff::expr::Expr(a.0, std::marker::PhantomData);
    let b3 = autodiff::expr::Expr(b.0, std::marker::PhantomData);
    let i3 = (a3 * b3).compile(&mut g).unwrap();
    assert_ne!(i1.id(), i3.id());
    assert_eq!(g.nodes.len(), 4);
}

#[test]
fn matmul_compiles_with_output_slot() {
    let mut g: Graph<f32, CpuHeap> = Graph::new(CpuHeap);
    let m1 = g.matrix::<2, 3>(vec![1., 2., 3., 4., 5., 6.]).unwrap();
    let m2 = g.matrix::<3, 4>(vec![0.; 12]).unwrap();
    let prod = m1.matmul(m2);
    let ix = prod.compile(&mut g).unwrap();
    let slot = g.data(&ix);
    assert_eq!(slot.len(), 8);
    let handle = ix.as_matrix::<2, 4>(&g);
    assert_eq!(g.get_matrix(&handle).unwrap().len(), 8);
}

#[test]
fn mut_data_overwrites_a_slot() {
    let mut g: Graph<f32, CpuHeap> = Graph::new(CpuHeap);
    let a = g.scalar(1.0f32, "a").unwrap();
    let b = g.scalar(2.0f32, "b").unwrap();
    let ix = (a + b).compile(&mut g).unwrap();
    g.mut_data(&ix, vec![42.0f32]);
    let s = ix.as_scalar(&g);
    assert_eq!(g.get_scalar(&s).unwrap(), 42.0);
}

#[test]
fn node_hashes_tell_structures_apart() {
    let h1 = NodeHash::leaf(1, 0);
    let h2 = NodeHash::leaf(1, 0);
    let h3 = NodeHash::leaf(1, 1);
    let h4 = NodeHash::leaf(2, 0);
    assert!(h1.same(&h2));
    assert!(!h1.same(&h3));
    assert!(!h1.same(&h4));
    let c1 = NodeHash::collect(7, vec![h1.clone(), h3.clone()]);
    let c2 = NodeHash::collect(7, vec![h2.clone(), h3.clone()]);
    let c3 = NodeHash::collect(7, vec![h3.clone(), h1.clone()]);
    assert!(c1.same(&c2));
    assert!(!c1.same(&c3));
}

#[test]
fn cpu_heap_round_trip() {
    let heap = CpuHeap;
    let buf = Backend::<f32>::allocate(&heap, 4).unwrap();
    assert_eq!(buf.len(), 4);
    let sent = heap.htod(vec![1.0f32, 2.0, 3.0]).unwrap();
    let back = heap.dtoh(&sent).unwrap();
    assert_eq!(back, vec![1.0, 2.0, 3.0]);
}
