use vstd::prelude::*;
use core::marker::PhantomData;
use crate::backend::Backend;
use crate::error::Error;
use crate::graph::{Graph, Node, NodeHash, NodeIndex, graph_wf};
use crate::ops::Op;

verus! {

/// A wrapper around an operator that allows operator overloading.
/// `E` is the underlying operator, `T` the scalar type of the
/// backend, and `B` the backend.
#[derive(Debug)]
pub struct Expr<E, T, B>(pub E, pub PhantomData<(T, B)>);

impl<T, B: Backend<T>, E: Op<T, B>> Op<T, B> for Expr<E, T, B> {
    type Output = E::Output;

    open spec fn compilable(&self) -> bool {
        self.0.compilable()
    }

    fn compile(self, graph: &mut Graph<T, B>) -> (r: Result<NodeIndex<T, B, Self>, Error>) {
        match self.0.compile(graph) {
            Ok(ix) => Ok(NodeIndex { id: ix.id, hash: ix.hash, marker: PhantomData }),
            Err(e) => Err(e),
        }
    }
}

impl<E: Node, T, B: Backend<T>> Node for Expr<E, T, B> {
    fn hash(&self) -> NodeHash {
        self.0.hash()
    }
}

impl<L: Op<T, B>, R: Op<T, B>, T, B: Backend<T>> core::ops::Add<Expr<R, T, B>> for Expr<L, T, B> {
    type Output = Expr<crate::ops::Add<L, R, (L::Output, R::Output)>, T, B>;

    /// Composes an addition node over two expressions.
    fn add(self, rhs: Expr<R, T, B>) -> (r: Self::Output) {
        Expr(crate::ops::Add { lhs: self.0, rhs: rhs.0, marker: PhantomData }, PhantomData)
    }
}

impl<L: Op<T, B>, R: Op<T, B>, T, B: Backend<T>> vstd::std_specs::ops::AddSpecImpl<
    Expr<R, T, B>> for Expr<L, T, B> {
    open spec fn obeys_add_spec() -> bool {
        true
    }

    open spec fn add_req(self, rhs: Expr<R, T, B>) -> bool {
        true
    }

    open spec fn add_spec(self, rhs: Expr<R, T, B>) -> Self::Output {
        Expr(crate::ops::Add { lhs: self.0, rhs: rhs.0, marker: PhantomData }, PhantomData)
    }
}

impl<L: Op<T, B>, R: Op<T, B>, T, B: Backend<T>> core::ops::Mul<Expr<R, T, B>> for Expr<L, T, B> {
    type Output = Expr<crate::ops::Mul<L, R, (L::Output, R::Output)>, T, B>;

    /// Composes a multiplication node over two expressions.
    fn mul(self, rhs: Expr<R, T, B>) -> (r: Self::Output) {
        Expr(crate::ops::Mul { lhs: self.0, rhs: rhs.0, marker: PhantomData }, PhantomData)
    }
}

impl<L: Op<T, B>, R: Op<T, B>, T, B: Backend<T>> vstd::std_specs::ops::MulSpecImpl<
    Expr<R, T, B>> for Expr<L, T, B> {
    open spec fn obeys_mul_spec() -> bool {
        true
    }

    open spec fn mul_req(self, rhs: Expr<R, T, B>) -> bool {
        true
    }

    open spec fn mul_spec(self, rhs: Expr<R, T, B>) -> Self::Output {
        Expr(crate::ops::Mul { lhs: self.0, rhs: rhs.0, marker: PhantomData }, PhantomData)
    }
}

impl<E, T, B: Backend<T>> Expr<E, T, B> {
    /// Composes a matrix-product node over two expressions: a pure
    /// constructor that touches no graph and evaluates nothing.
    pub fn matmul<E2>(self, rhs: Expr<E2, T, B>) -> (r: Expr<
        crate::ops::MatMul<E, E2, (E::Output, E2::Output)>,
        T,
        B,
    >) where E: Op<T, B>, E2: Op<T, B>
        ensures
            r.0 == (crate::ops::MatMul {
                lhs: self.0,
                rhs: rhs.0,
                marker: PhantomData::<(E::Output, E2::Output)>,
            }),
    {
        Expr(crate::ops::MatMul { lhs: self.0, rhs: rhs.0, marker: PhantomData }, PhantomData)
    }
}

} // verus!
