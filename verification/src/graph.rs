use vstd::prelude::*;
use core::marker::PhantomData;
use crate::backend::Backend;
use crate::error::Error;

verus! {

/// A node that can be inserted into a graph: it can describe itself
/// by a structural hash, used to find duplicate sub-expressions.
pub trait Node {
    fn hash(&self) -> NodeHash;
}

/// The structural identity of a node: a tag for its operator and the
/// flattened identities of its operands.
#[derive(Debug)]
pub struct NodeHash {
    type_id: usize,
    data_id: Vec<usize>,
}

impl View for NodeHash {
    type V = (int, Seq<usize>);

    closed spec fn view(&self) -> (int, Seq<usize>) {
        (self.type_id as int, self.data_id@)
    }
}

/// The flattened identities of a sequence of operand hashes: each
/// operand contributes its tag followed by its own identities.
pub open spec fn hash_concat(s: Seq<NodeHash>) -> Seq<usize>
    decreases s.len(),
{
    if s.len() == 0 {
        Seq::empty()
    } else {
        hash_concat(s.drop_last()) + seq![(s.last()@.0) as usize] + s.last()@.1
    }
}

impl NodeHash {
    /// A hash for a leaf that owns the data slot `data_id`.
    pub fn leaf(type_id: usize, data_id: usize) -> (r: NodeHash)
        ensures
            r@.0 == type_id,
            r@.1 == seq![data_id],
    {
        let mut v: Vec<usize> = Vec::new();
        v.push(data_id);
        proof {
            assert(v@ =~= seq![data_id]);
        }
        NodeHash { type_id, data_id: v }
    }

    /// Collects the hash of a node with tag `type_id` over the hashes
    /// of its operands, in order.
    pub fn collect(type_id: usize, sub: Vec<NodeHash>) -> (r: NodeHash)
        ensures
            r@.0 == type_id,
            r@.1 == hash_concat(sub@),
    {
        let mut out: Vec<usize> = Vec::new();
        let mut i: usize = 0;
        while i < sub.len()
            invariant
                i <= sub@.len(),
                out@ == hash_concat(sub@.take(i as int)),
            decreases sub@.len() - i,
        {
            out.push(sub[i].type_id);
            let mut j: usize = 0;
            while j < sub[i].data_id.len()
                invariant
                    i < sub@.len(),
                    j <= sub@[i as int].data_id@.len(),
                    out@ == hash_concat(sub@.take(i as int)) + seq![
                        (sub@[i as int]@.0) as usize,
                    ] + sub@[i as int].data_id@.subrange(0, j as int),
                decreases sub@[i as int].data_id@.len() - j,
            {
                out.push(sub[i].data_id[j]);
                proof {
                    assert(out@ =~= hash_concat(sub@.take(i as int)) + seq![
                        (sub@[i as int]@.0) as usize,
                    ] + sub@[i as int].data_id@.subrange(0, j + 1 as int));
                }
                j = j + 1;
            }
            proof {
                assert(sub@[i as int].data_id@.subrange(0, sub@[i as int].data_id@.len() as int)
                    =~= sub@[i as int].data_id@);
                assert(sub@.take(i + 1 as int).drop_last() =~= sub@.take(i as int));
                assert(sub@.take(i + 1 as int).last() == sub@[i as int]);
                assert(out@ =~= hash_concat(sub@.take(i + 1 as int)));
            }
            i = i + 1;
        }
        proof {
            assert(sub@.take(sub@.len() as int) =~= sub@);
        }
        NodeHash { type_id, data_id: out }
    }

    /// Whether two hashes name the same structure.
    pub fn same(&self, other: &NodeHash) -> (r: bool)
        ensures
            r == (self@ == other@),
    {
        if self.type_id != other.type_id {
            proof {
                assert(self@.0 != other@.0);
            }
            return false;
        }
        if self.data_id.len() != other.data_id.len() {
            proof {
                assert(self@.1.len() != other@.1.len());
            }
            return false;
        }
        let mut i: usize = 0;
        while i < self.data_id.len()
            invariant
                i <= self.data_id@.len(),
                self.data_id@.len() == other.data_id@.len(),
                self@.0 == other@.0,
                forall|n: int| 0 <= n < i ==> self.data_id@[n] == other.data_id@[n],
            decreases self.data_id@.len() - i,
        {
            if self.data_id[i] != other.data_id[i] {
                proof {
                    assert(self@.1[i as int] != other@.1[i as int]);
                }
                return false;
            }
            i = i + 1;
        }
        proof {
            assert(self@.1 =~= other@.1);
        }
        true
    }
}

impl Clone for NodeHash {
    fn clone(&self) -> (r: Self)
        ensures
            r@ == self@,
    {
        let mut v: Vec<usize> = Vec::new();
        let mut i: usize = 0;
        while i < self.data_id.len()
            invariant
                i <= self.data_id@.len(),
                v@ == self.data_id@.subrange(0, i as int),
            decreases self.data_id@.len() - i,
        {
            v.push(self.data_id[i]);
            i = i + 1;
        }
        proof {
            assert(v@ =~= self.data_id@);
        }
        NodeHash { type_id: self.type_id, data_id: v }
    }
}

/// A node as the graph stores it: the index of the data slot that
/// holds its output value.
#[derive(Debug)]
pub struct CompiledNode<T, B: Backend<T>> {
    pub data_id: usize,
    pub marker: PhantomData<(T, B)>,
}

/// Points at a compiled node of a graph. The parameter `N` remembers
/// which operator the node came from.
#[derive(Debug)]
pub struct NodeIndex<T, B: Backend<T>, N> {
    pub id: usize,
    pub hash: NodeHash,
    pub marker: PhantomData<(T, B, N)>,
}

impl<T, B: Backend<T>, N> NodeIndex<T, B, N> {
    /// The position of the node in its graph.
    pub fn id(&self) -> (r: usize)
        ensures
            r == self.id,
    {
        self.id
    }

    /// Returns the node's output slot as a scalar handle.
    pub fn as_scalar(&self, graph: &Graph<T, B>) -> (r: Scalar)
        requires
            self.id < graph.nodes@.len(),
        ensures
            r.0 == graph.nodes@[self.id as int].data_id,
            r.1@ == Seq::<char>::empty(),
    {
        proof {
            reveal_strlit("");
        }
        Scalar(graph.nodes[self.id].data_id, "")
    }

    /// Returns the node's output slot as a matrix handle of shape
    /// `R x C`.
    pub fn as_matrix<const R: usize, const C: usize>(&self, graph: &Graph<T, B>) -> (r: Matrix<
        R,
        C,
    >)
        requires
            self.id < graph.nodes@.len(),
        ensures
            r.0 == graph.nodes@[self.id as int].data_id,
            r.1.trans == false,
            r.1.leading_dim == R,
    {
        Matrix(
            graph.nodes[self.id].data_id,
            MatrixMeta { trans: false, leading_dim: R },
        )
    }
}

impl<T, B: Backend<T>, N> Node for NodeIndex<T, B, N> {
    fn hash(&self) -> (r: NodeHash)
        ensures
            r@ == self.hash@,
    {
        self.hash.clone()
    }
}

/// A container for compiled nodes: each distinct sub-expression is
/// stored once, found again by its structural hash, and owns one data
/// slot on the backend.
///
/// This verified engine builds and deduplicates graphs and moves data
/// in and out of their slots; it does not run them. Executing the
/// operators of a compiled graph takes backend-specific kernels and
/// dynamic dispatch over the stored nodes, which live outside the
/// verified core.
pub struct Graph<T, B: Backend<T>> {
    pub cache: Vec<(NodeHash, usize)>,
    pub nodes: Vec<CompiledNode<T, B>>,
    pub backend: B,
    pub data: Vec<B::DevicePtr>,
}

/// The first cached node whose hash names the same structure.
pub open spec fn cache_lookup(c: Seq<(NodeHash, usize)>, h: (int, Seq<usize>)) -> Option<usize>
    decreases c.len(),
{
    if c.len() == 0 {
        None
    } else if c[0].0@ == h {
        Some(c[0].1)
    } else {
        cache_lookup(c.drop_first(), h)
    }
}

/// Every cached id points at a node, and every node owns a data slot
/// that exists.
pub open spec fn graph_wf<T, B: Backend<T>>(g: &Graph<T, B>) -> bool {
    &&& forall|i: int| 0 <= i < g.cache@.len() ==> (#[trigger] g.cache@[i]).1 < g.nodes@.len()
    &&& forall|i: int| 0 <= i < g.nodes@.len() ==> (#[trigger] g.nodes@[i]).data_id
        < g.data@.len()
}

impl<T, B: Backend<T>> Graph<T, B> {
    /// A new, empty graph over the given backend.
    pub fn new(backend: B) -> (r: Self)
        ensures
            graph_wf(&r),
            r.cache@.len() == 0,
            r.nodes@.len() == 0,
            r.data@.len() == 0,
            r.backend == backend,
    {
        Graph { cache: Vec::new(), nodes: Vec::new(), backend, data: Vec::new() }
    }

    fn lookup(&self, h: &NodeHash) -> (r: Option<usize>)
        ensures
            r == cache_lookup(self.cache@, h@),
    {
        proof {
            assert(self.cache@.subrange(0, self.cache@.len() as int) =~= self.cache@);
        }
        let mut i: usize = 0;
        while i < self.cache.len()
            invariant
                i <= self.cache@.len(),
                cache_lookup(self.cache@, h@) == cache_lookup(
                    self.cache@.subrange(i as int, self.cache@.len() as int),
                    h@,
                ),
            decreases self.cache@.len() - i,
        {
            proof {
                let rest = self.cache@.subrange(i as int, self.cache@.len() as int);
                assert(rest[0] == self.cache@[i as int]);
                assert(rest.drop_first() =~= self.cache@.subrange(
                    i + 1 as int,
                    self.cache@.len() as int,
                ));
            }
            if self.cache[i].0.same(h) {
                return Some(self.cache[i].1);
            }
            i = i + 1;
        }
        proof {
            assert(self.cache@.subrange(self.cache@.len() as int, self.cache@.len() as int)
                =~= Seq::<(NodeHash, usize)>::empty());
        }
        None
    }

    /// Inserts a node. `hashes` holds every permutation of the node
    /// that evaluates to the same value, so that, say, `a + b` and
    /// `b + a` share one slot: if any of them is already cached, the
    /// existing node is returned and the graph does not change.
    /// Otherwise a data slot of `elements` elements is allocated on
    /// the backend and the node is stored under the first hash.
    pub fn insert<N>(&mut self, node: N, hashes: &Vec<NodeHash>, elements: usize) -> (r: Result<
        NodeIndex<T, B, N>,
        Error,
    >)
        requires
            hashes@.len() >= 1,
            graph_wf(old(self)),
        ensures
            graph_wf(final(self)),
            final(self).backend == old(self).backend,
            first_cached(old(self).cache@, hashes@) is Some ==> r is Ok,
            B::transfers_succeed() ==> r is Ok,
            match r {
                Ok(ix) => {
                    &&& ix.id < final(self).nodes@.len()
                    &&& (match first_cached(old(self).cache@, hashes@) {
                        Some(id) => *final(self) == *old(self) && ix.id == id && ix.hash@
                            == first_cached_hash(old(self).cache@, hashes@),
                        None => {
                            &&& ix.hash@ == hashes@[0]@
                            &&& final(self).nodes@.len() == old(self).nodes@.len() + 1
                            &&& ix.id == old(self).nodes@.len()
                            &&& final(self).data@.len() == old(self).data@.len() + 1
                            &&& final(self).nodes@.last().data_id == old(self).data@.len()
                            &&& B::buf(&final(self).data@.last()).len() == elements
                            &&& final(self).data@.subrange(0, old(self).data@.len() as int)
                                == old(self).data@
                            &&& final(self).nodes@.subrange(0, old(self).nodes@.len() as int)
                                == old(self).nodes@
                            &&& final(self).cache@.len() == old(self).cache@.len() + 1
                            &&& final(self).cache@.last().0@ == hashes@[0]@
                            &&& final(self).cache@.last().1 == ix.id
                            &&& final(self).cache@.subrange(0, old(self).cache@.len() as int)
                                == old(self).cache@
                        },
                    })
                },
                Err(_) => *final(self) == *old(self),
            },
    {
        let mut i: usize = 0;
        while i < hashes.len()
            invariant
                i <= hashes@.len(),
                forall|n: int|
                    0 <= n < i ==> cache_lookup(self.cache@, (#[trigger] hashes@[n])@) is None,
                graph_wf(self),
                self == old(self),
            decreases hashes@.len() - i,
        {
            match self.lookup(&hashes[i]) {
                Some(id) => {
                    proof {
                        lemma_first_cached_some(self.cache@, hashes@, i as int);
                        lemma_cache_lookup_wf(self.cache@, hashes@[i as int]@, self.nodes@.len() as int);
                    }
                    return Ok(NodeIndex { id, hash: hashes[i].clone(), marker: PhantomData });
                },
                None => {},
            }
            i = i + 1;
        }
        proof {
            lemma_first_cached_none(self.cache@, hashes@);
        }
        let slot = match self.backend.allocate(elements) {
            Ok(s) => s,
            Err(e) => {
                return Err(e);
            },
        };
        let id = self.nodes.len();
        let data_id = self.data.len();
        self.data.push(slot);
        self.nodes.push(CompiledNode { data_id, marker: PhantomData });
        self.cache.push((hashes[0].clone(), id));
        Ok(NodeIndex { id, hash: hashes[0].clone(), marker: PhantomData })
    }

    /// Allocates a slot holding the single value `value` and returns
    /// a scalar leaf bound to the name `symbol`.
    pub fn scalar(&mut self, value: T, symbol: &'static str) -> (r: Result<
        crate::expr::Expr<Scalar, T, B>,
        Error,
    >)
        requires
            graph_wf(old(self)),
        ensures
            graph_wf(final(self)),
            B::transfers_succeed() ==> r is Ok,
            match r {
                Ok(e) => {
                    &&& final(self).data@.len() == old(self).data@.len() + 1
                    &&& final(self).data@.subrange(0, old(self).data@.len() as int) == old(
                        self,
                    ).data@
                    &&& final(self).nodes@ == old(self).nodes@
                    &&& final(self).cache@ == old(self).cache@
                    &&& final(self).backend == old(self).backend
                    &&& e.0.0 == old(self).data@.len()
                    &&& e.0.1@ == symbol@
                    &&& B::buf(&final(self).data@.last()) == seq![value]
                },
                Err(_) => *final(self) == *old(self),
            },
    {
        let n = self.data.len();
        let mut host: Vec<T> = Vec::new();
        host.push(value);
        proof {
            assert(host@ =~= seq![value]);
        }
        let slot = match self.backend.htod(host) {
            Ok(s) => s,
            Err(e) => {
                return Err(e);
            },
        };
        self.data.push(slot);
        Ok(crate::expr::Expr(Scalar(n, symbol), PhantomData))
    }

    /// Allocates a slot holding `value` in row-major order and
    /// returns a matrix leaf of shape `R x C`.
    pub fn matrix<const R: usize, const C: usize>(&mut self, value: Vec<T>) -> (r: Result<
        crate::expr::Expr<Matrix<R, C>, T, B>,
        Error,
    >)
        requires
            graph_wf(old(self)),
            (R as int) * (C as int) == value@.len(),
        ensures
            graph_wf(final(self)),
            B::transfers_succeed() ==> r is Ok,
            match r {
                Ok(e) => {
                    &&& final(self).data@.len() == old(self).data@.len() + 1
                    &&& final(self).data@.subrange(0, old(self).data@.len() as int) == old(
                        self,
                    ).data@
                    &&& final(self).nodes@ == old(self).nodes@
                    &&& final(self).cache@ == old(self).cache@
                    &&& final(self).backend == old(self).backend
                    &&& e.0.0 == old(self).data@.len()
                    &&& e.0.1.trans == false
                    &&& e.0.1.leading_dim == 0
                    &&& B::buf(&final(self).data@.last()) == value@
                },
                Err(_) => *final(self) == *old(self),
            },
    {
        let n = self.data.len();
        let slot = match self.backend.htod(value) {
            Ok(s) => s,
            Err(e) => {
                return Err(e);
            },
        };
        self.data.push(slot);
        Ok(crate::expr::Expr(Matrix(n, MatrixMeta { trans: false, leading_dim: 0 }), PhantomData))
    }

    /// The data slot of `node`, read-only.
    pub fn data<N>(&self, node: &NodeIndex<T, B, N>) -> (r: &B::DevicePtr)
        requires
            graph_wf(self),
            node.id < self.nodes@.len(),
        ensures
            r == &self.data@[self.nodes@[node.id as int].data_id as int],
    {
        &self.data[self.nodes[node.id].data_id]
    }

    /// Overwrites the data slot of `node` with `value`.
    pub fn mut_data<N>(&mut self, node: &NodeIndex<T, B, N>, value: B::DevicePtr)
        requires
            graph_wf(old(self)),
            node.id < old(self).nodes@.len(),
        ensures
            graph_wf(final(self)),
            final(self).data@ == old(self).data@.update(
                old(self).nodes@[node.id as int].data_id as int,
                value,
            ),
            final(self).nodes@ == old(self).nodes@,
            final(self).cache@ == old(self).cache@,
    {
        let slot = self.nodes[node.id].data_id;
        self.data.set(slot, value);
    }

    /// The value of a scalar handle: the first element of its slot.
    pub fn get_scalar(&self, s: &Scalar) -> (r: Result<T, Error>) where T: Copy
        requires
            s.0 < self.data@.len(),
        ensures
            r matches Ok(t) ==> B::buf(&self.data@[s.0 as int]).len() >= 1 && t == B::buf(
                &self.data@[s.0 as int],
            )[0],
            B::transfers_succeed() && B::buf(&self.data@[s.0 as int]).len() >= 1 ==> r is Ok,
    {
        let v = match self.backend.dtoh(&self.data[s.0]) {
            Ok(v) => v,
            Err(e) => {
                return Err(e);
            },
        };
        if v.len() == 0 {
            return Err(Error::UnsupportedCombination);
        }
        Ok(v[0])
    }

    /// The values of a matrix handle, in row-major order.
    pub fn get_matrix<const R: usize, const C: usize>(&self, m: &Matrix<R, C>) -> (r: Result<
        Vec<T>,
        Error,
    >)
        requires
            m.0 < self.data@.len(),
        ensures
            r matches Ok(v) ==> v@ == B::buf(&self.data@[m.0 as int]),
            B::transfers_succeed() ==> r is Ok,
    {
        self.backend.dtoh(&self.data[m.0])
    }
}

/// A sequence is its own prefix.
pub(crate) proof fn lemma_prefix_refl<A>(s: Seq<A>)
    ensures
        s.subrange(0, s.len() as int) == s,
{
    assert(s.subrange(0, s.len() as int) =~= s);
}

/// Being a prefix carries across two extensions.
pub(crate) proof fn lemma_prefix_trans<A>(s1: Seq<A>, s2: Seq<A>, s3: Seq<A>)
    requires
        s1.len() <= s2.len() <= s3.len(),
        s2.subrange(0, s1.len() as int) == s1,
        s3.subrange(0, s2.len() as int) == s2,
    ensures
        s3.subrange(0, s1.len() as int) == s1,
{
    assert forall|i: int| 0 <= i < s1.len() implies s3[i] == s1[i] by {
        assert(s2[i] == s2.subrange(0, s1.len() as int)[i]);
        assert(s3[i] == s3.subrange(0, s2.len() as int)[i]);
    }
    assert(s3.subrange(0, s1.len() as int) =~= s1);
}

/// The id under the first of `hashes` that the cache already holds.
pub open spec fn first_cached(c: Seq<(NodeHash, usize)>, hashes: Seq<NodeHash>) -> Option<usize>
    decreases hashes.len(),
{
    if hashes.len() == 0 {
        None
    } else {
        match cache_lookup(c, hashes[0]@) {
            Some(id) => Some(id),
            None => first_cached(c, hashes.drop_first()),
        }
    }
}

/// The first of `hashes` that the cache already holds — the one the
/// returned index then carries.
pub open spec fn first_cached_hash(c: Seq<(NodeHash, usize)>, hashes: Seq<NodeHash>) -> (
    int,
    Seq<usize>,
)
    decreases hashes.len(),
{
    if hashes.len() == 0 {
        (0, Seq::empty())
    } else if cache_lookup(c, hashes[0]@) is Some {
        hashes[0]@
    } else {
        first_cached_hash(c, hashes.drop_first())
    }
}

proof fn lemma_cache_lookup_wf(c: Seq<(NodeHash, usize)>, h: (int, Seq<usize>), bound: int)
    requires
        forall|i: int| 0 <= i < c.len() ==> (#[trigger] c[i]).1 < bound,
        cache_lookup(c, h) is Some,
    ensures
        cache_lookup(c, h)->Some_0 < bound,
    decreases c.len(),
{
    if c.len() > 0 && c[0].0@ != h {
        assert(forall|i: int| 0 <= i < c.len() - 1 ==> (#[trigger] c.drop_first()[i]) == c[i + 1]);
        lemma_cache_lookup_wf(c.drop_first(), h, bound);
    }
}

proof fn lemma_first_cached_some(c: Seq<(NodeHash, usize)>, hashes: Seq<NodeHash>, i: int)
    requires
        0 <= i < hashes.len(),
        forall|n: int| 0 <= n < i ==> cache_lookup(c, (#[trigger] hashes[n])@) is None,
        cache_lookup(c, hashes[i]@) is Some,
    ensures
        first_cached(c, hashes) == cache_lookup(c, hashes[i]@),
        first_cached_hash(c, hashes) == hashes[i]@,
    decreases i,
{
    if i == 0 {
    } else {
        assert(hashes.drop_first()[i - 1] == hashes[i]);
        assert(forall|n: int|
            0 <= n < i - 1 ==> (#[trigger] hashes.drop_first()[n])@ == hashes[n + 1]@);
        lemma_first_cached_some(c, hashes.drop_first(), i - 1);
    }
}

proof fn lemma_first_cached_none(c: Seq<(NodeHash, usize)>, hashes: Seq<NodeHash>)
    requires
        forall|n: int| 0 <= n < hashes.len() ==> cache_lookup(c, (#[trigger] hashes[n])@) is None,
    ensures
        first_cached(c, hashes) is None,
    decreases hashes.len(),
{
    if hashes.len() > 0 {
        assert(forall|n: int|
            0 <= n < hashes.len() - 1 ==> (#[trigger] hashes.drop_first()[n])@ == hashes[n + 1]@);
        lemma_first_cached_none(c, hashes.drop_first());
    }
}

/// A leaf that stands for one scalar slot, with the name it was
/// bound to. It evaluates to itself.
#[derive(Clone, Copy, Debug)]
pub struct Scalar(pub usize, pub &'static str);

impl Scalar {
    /// The data slot this handle points at.
    pub fn data_id(&self) -> (r: usize)
        ensures
            r == self.0,
    {
        self.0
    }

    /// The name this slot was bound to.
    pub fn symbol(&self) -> (r: &'static str)
        ensures
            r@ == self.1@,
    {
        self.1
    }
}

pub const TAG_SCALAR: usize = 1;

pub const TAG_MATRIX: usize = 2;

pub const TAG_ADD: usize = 3;

pub const TAG_MUL: usize = 4;

pub const TAG_MATMUL: usize = 5;

impl Node for Scalar {
    fn hash(&self) -> (r: NodeHash)
        ensures
            r@.0 == TAG_SCALAR as int,
            r@.1 == seq![self.0],
    {
        NodeHash::leaf(TAG_SCALAR, self.0)
    }
}

/// Anything a matrix handle needs beyond its slot: whether it is
/// transposed, and its leading dimension.
#[derive(Clone, Copy, Debug)]
pub struct MatrixMeta {
    pub trans: bool,
    pub leading_dim: usize,
}

/// A leaf that stands for one matrix slot of shape `R x C`. The
/// const parameters only check shapes at compile time; storage is
/// dynamic.
#[derive(Clone, Copy, Debug)]
pub struct Matrix<const R: usize, const C: usize>(pub usize, pub MatrixMeta);

impl<const R: usize, const C: usize> Matrix<R, C> {
    /// The data slot this handle points at.
    pub fn data_id(&self) -> (r: usize)
        ensures
            r == self.0,
    {
        self.0
    }
}

impl<const R: usize, const C: usize> Node for Matrix<R, C> {
    fn hash(&self) -> (r: NodeHash)
        ensures
            r@.0 == TAG_MATRIX as int,
            r@.1 == seq![self.0],
    {
        NodeHash::leaf(TAG_MATRIX, self.0)
    }
}

} // verus!
