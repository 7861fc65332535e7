use vstd::prelude::*;
use core::marker::PhantomData;
use crate::backend::Backend;
use crate::error::Error;
use crate::graph::{
    Graph, Node, NodeHash, NodeIndex, Scalar, Matrix, graph_wf, lemma_prefix_refl,
    lemma_prefix_trans, TAG_ADD, TAG_MUL, TAG_MATMUL,
};


verus! {

/// An operator of the bulk-evaluation graph: it knows its output
/// handle kind and how to compile itself — and its operands — into a
/// graph, sharing any slot an equal sub-expression already owns.
pub trait Op<T, B: Backend<T>> {
    type Output;

    /// Whether no machine limit stands in the way of compiling this
    /// node: every output slot it would allocate has a length that
    /// fits the machine word. On a backend whose transfers succeed,
    /// compiling a compilable node is owed success.
    spec fn compilable(&self) -> bool;

    /// Compiling only ever extends the graph: every node, data slot
    /// and cache entry that existed before is still there, untouched,
    /// and a successful result points at a node of the final graph.
    /// What one insertion does — a fresh node with its slot size, or
    /// reuse of the node a matching hash already names — is pinned by
    /// `Graph::insert`, where the hashes are in view; two structural
    /// hashes may collide, so nothing ties a reused node's slot to
    /// this node's own size.
    fn compile(self, graph: &mut Graph<T, B>) -> (r: Result<NodeIndex<T, B, Self>, Error>) where
        Self: Sized
        requires
            graph_wf(old(graph)),
        ensures
            graph_wf(final(graph)),
            final(graph).nodes@.len() >= old(graph).nodes@.len(),
            final(graph).nodes@.subrange(0, old(graph).nodes@.len() as int) == old(graph).nodes@,
            final(graph).data@.len() >= old(graph).data@.len(),
            final(graph).data@.subrange(0, old(graph).data@.len() as int) == old(graph).data@,
            final(graph).cache@.len() >= old(graph).cache@.len(),
            final(graph).cache@.subrange(0, old(graph).cache@.len() as int) == old(graph).cache@,
            final(graph).backend == old(graph).backend,
            B::transfers_succeed() && self.compilable() ==> r is Ok,
            r matches Ok(ix) ==> ix.id < final(graph).nodes@.len(),
    ;
}

/// An addition node over two operands; `T` carries the pair of
/// operand output kinds.
#[derive(Debug)]
pub struct Add<L, R, T> {
    pub lhs: L,
    pub rhs: R,
    pub marker: PhantomData<T>,
}

impl<L: Node, R: Node, T> Node for Add<L, R, T> {
    fn hash(&self) -> NodeHash {
        let mut sub: Vec<NodeHash> = Vec::new();
        sub.push(self.lhs.hash());
        sub.push(self.rhs.hash());
        NodeHash::collect(TAG_ADD, sub)
    }
}

impl<L, R, T, B: Backend<T>> Op<T, B> for Add<L, R, (Scalar, Scalar)> where
    L: Op<T, B, Output = Scalar> + Node,
    R: Op<T, B, Output = Scalar> + Node,
 {
    type Output = Scalar;

    open spec fn compilable(&self) -> bool {
        self.lhs.compilable() && self.rhs.compilable()
    }

    /// Compiles both operands, then inserts this node under the
    /// hashes of both operand orders, since addition commutes. The
    /// output is one scalar slot.
    fn compile(self, graph: &mut Graph<T, B>) -> (r: Result<NodeIndex<T, B, Self>, Error>) {
        let ghost g0 = *graph;
        let Add { lhs, rhs, marker: _ } = self;
        let hl = lhs.hash();
        let hr = rhs.hash();
        let mut sub1: Vec<NodeHash> = Vec::new();
        sub1.push(hl.clone());
        sub1.push(hr.clone());
        let mut sub2: Vec<NodeHash> = Vec::new();
        sub2.push(hr);
        sub2.push(hl);
        let mut hashes: Vec<NodeHash> = Vec::new();
        hashes.push(NodeHash::collect(TAG_ADD, sub1));
        hashes.push(NodeHash::collect(TAG_ADD, sub2));
        let cl = match lhs.compile(graph) {
            Ok(ix) => ix,
            Err(e) => {
                return Err(e);
            },
        };
        let ghost g1 = *graph;
        let cr = match rhs.compile(graph) {
            Ok(ix) => ix,
            Err(e) => {
                proof {
                    lemma_prefix_trans(g0.nodes@, g1.nodes@, graph.nodes@);
                    lemma_prefix_trans(g0.data@, g1.data@, graph.data@);
                    lemma_prefix_trans(g0.cache@, g1.cache@, graph.cache@);
                }
                return Err(e);
            },
        };
        let ghost g2 = *graph;
        proof {
            lemma_prefix_trans(g0.nodes@, g1.nodes@, g2.nodes@);
            lemma_prefix_trans(g0.data@, g1.data@, g2.data@);
            lemma_prefix_trans(g0.cache@, g1.cache@, g2.cache@);
        }
        let node = Add { lhs: cl, rhs: cr, marker: PhantomData::<(Scalar, Scalar)> };
        let res = graph.insert(node, &hashes, 1);
        proof {
            lemma_prefix_refl(g2.nodes@);
            lemma_prefix_refl(g2.data@);
            lemma_prefix_refl(g2.cache@);
            lemma_prefix_trans(g0.nodes@, g2.nodes@, graph.nodes@);
            lemma_prefix_trans(g0.data@, g2.data@, graph.data@);
            lemma_prefix_trans(g0.cache@, g2.cache@, graph.cache@);
        }
        match res {
            Ok(ix) => Ok(NodeIndex { id: ix.id, hash: ix.hash, marker: PhantomData }),
            Err(e) => Err(e),
        }
    }
}

/// A multiplication node over two operands.
#[derive(Debug)]
pub struct Mul<L, R, T> {
    pub lhs: L,
    pub rhs: R,
    pub marker: PhantomData<T>,
}

impl<L: Node, R: Node, T> Node for Mul<L, R, T> {
    fn hash(&self) -> NodeHash {
        let mut sub: Vec<NodeHash> = Vec::new();
        sub.push(self.lhs.hash());
        sub.push(self.rhs.hash());
        NodeHash::collect(TAG_MUL, sub)
    }
}

impl<L, R, T, B: Backend<T>> Op<T, B> for Mul<L, R, (Scalar, Scalar)> where
    L: Op<T, B, Output = Scalar> + Node,
    R: Op<T, B, Output = Scalar> + Node,
 {
    type Output = Scalar;

    open spec fn compilable(&self) -> bool {
        self.lhs.compilable() && self.rhs.compilable()
    }

    /// Compiles both operands, then inserts this node under the
    /// hashes of both operand orders, since scalar multiplication
    /// commutes. The output is one scalar slot.
    fn compile(self, graph: &mut Graph<T, B>) -> (r: Result<NodeIndex<T, B, Self>, Error>) {
        let ghost g0 = *graph;
        let Mul { lhs, rhs, marker: _ } = self;
        let hl = lhs.hash();
        let hr = rhs.hash();
        let mut sub1: Vec<NodeHash> = Vec::new();
        sub1.push(hl.clone());
        sub1.push(hr.clone());
        let mut sub2: Vec<NodeHash> = Vec::new();
        sub2.push(hr);
        sub2.push(hl);
        let mut hashes: Vec<NodeHash> = Vec::new();
        hashes.push(NodeHash::collect(TAG_MUL, sub1));
        hashes.push(NodeHash::collect(TAG_MUL, sub2));
        let cl = match lhs.compile(graph) {
            Ok(ix) => ix,
            Err(e) => {
                return Err(e);
            },
        };
        let ghost g1 = *graph;
        let cr = match rhs.compile(graph) {
            Ok(ix) => ix,
            Err(e) => {
                proof {
                    lemma_prefix_trans(g0.nodes@, g1.nodes@, graph.nodes@);
                    lemma_prefix_trans(g0.data@, g1.data@, graph.data@);
                    lemma_prefix_trans(g0.cache@, g1.cache@, graph.cache@);
                }
                return Err(e);
            },
        };
        let ghost g2 = *graph;
        proof {
            lemma_prefix_trans(g0.nodes@, g1.nodes@, g2.nodes@);
            lemma_prefix_trans(g0.data@, g1.data@, g2.data@);
            lemma_prefix_trans(g0.cache@, g1.cache@, g2.cache@);
        }
        let node = Mul { lhs: cl, rhs: cr, marker: PhantomData::<(Scalar, Scalar)> };
        let res = graph.insert(node, &hashes, 1);
        proof {
            lemma_prefix_refl(g2.nodes@);
            lemma_prefix_refl(g2.data@);
            lemma_prefix_refl(g2.cache@);
            lemma_prefix_trans(g0.nodes@, g2.nodes@, graph.nodes@);
            lemma_prefix_trans(g0.data@, g2.data@, graph.data@);
            lemma_prefix_trans(g0.cache@, g2.cache@, graph.cache@);
        }
        match res {
            Ok(ix) => Ok(NodeIndex { id: ix.id, hash: ix.hash, marker: PhantomData }),
            Err(e) => Err(e),
        }
    }
}

/// A matrix-product node over two operands.
#[derive(Debug)]
pub struct MatMul<L, R, T> {
    pub lhs: L,
    pub rhs: R,
    pub marker: PhantomData<T>,
}

impl<L: Node, R: Node, T> Node for MatMul<L, R, T> {
    fn hash(&self) -> NodeHash {
        let mut sub: Vec<NodeHash> = Vec::new();
        sub.push(self.lhs.hash());
        sub.push(self.rhs.hash());
        NodeHash::collect(TAG_MATMUL, sub)
    }
}

impl<L, R, T, B: Backend<T>, const M: usize, const N: usize, const K: usize> Op<T, B> for MatMul<
    L,
    R,
    (Matrix<M, N>, Matrix<N, K>),
> where L: Op<T, B, Output = Matrix<M, N>> + Node, R: Op<T, B, Output = Matrix<N, K>> + Node {
    type Output = Matrix<M, K>;

    open spec fn compilable(&self) -> bool {
        self.lhs.compilable() && self.rhs.compilable() && (M as int) * (K as int) <= usize::MAX
    }

    /// Compiles both operands, then inserts this node under its one
    /// hash: a matrix product does not commute. The output slot holds
    /// `M * K` elements.
    fn compile(self, graph: &mut Graph<T, B>) -> (r: Result<NodeIndex<T, B, Self>, Error>) {
        let ghost g0 = *graph;
        let MatMul { lhs, rhs, marker: _ } = self;
        let hl = lhs.hash();
        let hr = rhs.hash();
        let mut sub1: Vec<NodeHash> = Vec::new();
        sub1.push(hl);
        sub1.push(hr);
        let mut hashes: Vec<NodeHash> = Vec::new();
        hashes.push(NodeHash::collect(TAG_MATMUL, sub1));
        let cl = match lhs.compile(graph) {
            Ok(ix) => ix,
            Err(e) => {
                return Err(e);
            },
        };
        let ghost g1 = *graph;
        let cr = match rhs.compile(graph) {
            Ok(ix) => ix,
            Err(e) => {
                proof {
                    lemma_prefix_trans(g0.nodes@, g1.nodes@, graph.nodes@);
                    lemma_prefix_trans(g0.data@, g1.data@, graph.data@);
                    lemma_prefix_trans(g0.cache@, g1.cache@, graph.cache@);
                }
                return Err(e);
            },
        };
        let ghost g2 = *graph;
        proof {
            lemma_prefix_trans(g0.nodes@, g1.nodes@, g2.nodes@);
            lemma_prefix_trans(g0.data@, g1.data@, g2.data@);
            lemma_prefix_trans(g0.cache@, g1.cache@, g2.cache@);
        }
        let elements = match M.checked_mul(K) {
            Some(p) => p,
            None => {
                return Err(Error::Overflow);
            },
        };
        let node = MatMul { lhs: cl, rhs: cr, marker: PhantomData::<(Matrix<M, N>, Matrix<N, K>)> };
        let res = graph.insert(node, &hashes, elements);
        proof {
            lemma_prefix_refl(g2.nodes@);
            lemma_prefix_refl(g2.data@);
            lemma_prefix_refl(g2.cache@);
            lemma_prefix_trans(g0.nodes@, g2.nodes@, graph.nodes@);
            lemma_prefix_trans(g0.data@, g2.data@, graph.data@);
            lemma_prefix_trans(g0.cache@, g2.cache@, graph.cache@);
        }
        match res {
            Ok(ix) => Ok(NodeIndex { id: ix.id, hash: ix.hash, marker: PhantomData }),
            Err(e) => Err(e),
        }
    }
}

impl<T, B: Backend<T>> Op<T, B> for Scalar {
    type Output = Scalar;

    open spec fn compilable(&self) -> bool {
        true
    }

    /// A scalar leaf evaluates to itself: compiling it only records
    /// it in the graph with a one-element output slot.
    fn compile(self, graph: &mut Graph<T, B>) -> (r: Result<NodeIndex<T, B, Self>, Error>) {
        let ghost g0 = *graph;
        let h = self.hash();
        let mut hashes: Vec<NodeHash> = Vec::new();
        hashes.push(h);
        let res = graph.insert(self, &hashes, 1);
        proof {
            lemma_prefix_refl(g0.nodes@);
            lemma_prefix_refl(g0.data@);
            lemma_prefix_refl(g0.cache@);
        }
        res
    }
}

impl<T, B: Backend<T>, const R: usize, const C: usize> Op<T, B> for Matrix<R, C> {
    type Output = Matrix<R, C>;

    open spec fn compilable(&self) -> bool {
        (R as int) * (C as int) <= usize::MAX
    }

    /// A matrix leaf evaluates to itself: compiling it records it in
    /// the graph with an `R * C`-element output slot.
    fn compile(self, graph: &mut Graph<T, B>) -> (r: Result<NodeIndex<T, B, Self>, Error>) {
        let ghost g0 = *graph;
        let h = self.hash();
        let mut hashes: Vec<NodeHash> = Vec::new();
        hashes.push(h);
        let elements = match R.checked_mul(C) {
            Some(p) => p,
            None => {
                return Err(Error::Overflow);
            },
        };
        let res = graph.insert(self, &hashes, elements);
        proof {
            lemma_prefix_refl(g0.nodes@);
            lemma_prefix_refl(g0.data@);
            lemma_prefix_refl(g0.cache@);
        }
        res
    }
}

} // verus!
