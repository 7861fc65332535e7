//! A symbolic automatic-differentiation engine: expressions built
//! from scalar and matrix operations over named variables can produce
//! new expressions standing for their seeded partial derivatives,
//! which compose and differentiate again.

use vstd::prelude::*;

pub mod anon;
pub mod backend;
pub mod error;
pub mod expr;
pub mod graph;
pub mod ops;
pub mod prelude;
pub mod laws;
pub mod mat;
pub mod primitive_ops;
pub mod symbol;
pub mod term;
pub mod value;

use crate::error::Error;
use crate::symbol::Symbol;
use crate::term::{Term, TermModel, eval_term, deriv_term, term_is_zero};
use crate::value::{Value, res_value};

verus! {

/// A handle around an expression tree, the unit that client code
/// composes, differentiates and evaluates.
#[derive(Debug)]
pub struct Node(pub Term);

impl View for Node {
    type V = TermModel;

    open spec fn view(&self) -> TermModel {
        self.0@
    }
}

impl Clone for Node {
    fn clone(&self) -> (r: Self)
        ensures
            r@ == self@,
    {
        Node(self.0.clone())
    }
}

impl Node {
    /// Wraps an expression tree.
    pub fn new(node: Term) -> (r: Self)
        ensures
            r@ == node@,
    {
        Node(node)
    }
}

/// The capability every expression node offers: evaluate to a value,
/// report structural zeroness, and produce, per requested name, a new
/// expression standing for the seeded partial derivative.
pub trait Differentiable {
    /// The expression tree this node stands for.
    spec fn term(&self) -> TermModel;

    /// This node as an owned expression tree.
    fn into_term(self) -> (t: Term) where Self: Sized
        ensures
            t@ == self.term(),
    ;

    /// The value of the expression; a pure function of its leaves.
    fn eval(&self) -> (r: Result<Value, Error>)
        ensures
            res_value(r) == eval_term(self.term()),
    ;

    /// For each requested name, a new expression whose value is the
    /// partial derivative of this one with respect to that name,
    /// combined with the seed `d`. Building the result performs no
    /// numeric work and cannot fail; the results come in the order
    /// the names were requested.
    fn derivative(&self, k: &[&str], d: &Node) -> (r: Vec<Node>)
        ensures
            r@.len() == k@.len(),
            forall|i: int|
                0 <= i < k@.len() ==> (#[trigger] r@[i])@ == deriv_term(
                    self.term(),
                    k@[i]@,
                    d@,
                ),
    ;

    /// Whether this node is known to be the additive identity by
    /// structure alone, with no evaluation.
    fn is_zero(&self) -> (r: bool)
        ensures
            r == term_is_zero(self.term()),
    ;

    /// Binds this expression to a name, making it a differentiation
    /// target.
    fn symbol(self, name: &'static str) -> (r: Node) where Self: Sized
        ensures
            r@ == TermModel::Symbol(name@, Box::new(self.term())),
    {
        Node(Term::Symbol(Box::new(Symbol::new(self.into_term(), name))))
    }

    /// The transpose of this expression.
    fn transpose(self) -> (r: Node) where Self: Sized
        ensures
            r@ == TermModel::Transpose(Box::new(self.term())),
    {
        Node(Term::Transpose(Box::new(self.into_term())))
    }

    /// The elementwise exponential of this expression.
    fn exp(self) -> (r: Node) where Self: Sized
        ensures
            r@ == TermModel::Exp(Box::new(self.term())),
    {
        Node(Term::Exp(Box::new(self.into_term())))
    }

    /// The sum of all entries of this expression, as a scalar.
    fn sum(self) -> (r: Node) where Self: Sized
        ensures
            r@ == TermModel::Sum(Box::new(self.term())),
    {
        Node(Term::Sum(Box::new(self.into_term())))
    }

    /// The commutative elementwise product with another expression.
    fn elem_mul(self, rhs: Node) -> (r: Node) where Self: Sized
        ensures
            r@ == TermModel::ElemMul(Box::new(self.term()), Box::new(rhs@)),
    {
        Node(Term::ElemMul(Box::new(self.into_term()), Box::new(rhs.0)))
    }
}

/// Differentiates a tree for each requested name in order.
fn derivative_terms(t: &Term, k: &[&str], d: &Node) -> (r: Vec<Node>)
    ensures
        r@.len() == k@.len(),
        forall|i: int|
            0 <= i < k@.len() ==> (#[trigger] r@[i])@ == deriv_term(t@, k@[i]@, d@),
{
    let mut out: Vec<Node> = Vec::new();
    let mut i: usize = 0;
    while i < k.len()
        invariant
            i <= k@.len(),
            out@.len() == i,
            forall|n: int|
                0 <= n < i ==> (#[trigger] out@[n])@ == deriv_term(t@, k@[n]@, d@),
        decreases k@.len() - i,
    {
        out.push(Node(t.derivative_for(k[i], &d.0)));
        i = i + 1;
    }
    out
}

impl Differentiable for Node {
    open spec fn term(&self) -> TermModel {
        self@
    }

    fn into_term(self) -> (t: Term) {
        self.0
    }

    fn eval(&self) -> (r: Result<Value, Error>) {
        self.0.eval()
    }

    fn derivative(&self, k: &[&str], d: &Node) -> (r: Vec<Node>) {
        derivative_terms(&self.0, k, d)
    }

    fn is_zero(&self) -> (r: bool) {
        self.0.is_zero()
    }
}

impl Differentiable for Term {
    open spec fn term(&self) -> TermModel {
        self@
    }

    fn into_term(self) -> (t: Term) {
        self
    }

    fn eval(&self) -> (r: Result<Value, Error>) {
        Term::eval(self)
    }

    fn derivative(&self, k: &[&str], d: &Node) -> (r: Vec<Node>) {
        derivative_terms(self, k, d)
    }

    fn is_zero(&self) -> (r: bool) {
        Term::is_zero(self)
    }
}

impl Differentiable for crate::value::Atom {
    open spec fn term(&self) -> TermModel {
        TermModel::Value(crate::value::ValueModel::Atom(*self))
    }

    fn into_term(self) -> (t: Term) {
        Term::Value(Value::Atom(self))
    }

    fn eval(&self) -> (r: Result<Value, Error>) {
        Ok(Value::Atom(*self))
    }

    fn derivative(&self, k: &[&str], d: &Node) -> (r: Vec<Node>) {
        let t = Term::Value(Value::Atom(*self));
        derivative_terms(&t, k, d)
    }

    fn is_zero(&self) -> (r: bool) {
        crate::value::Atom::is_zero(self)
    }
}

impl Differentiable for crate::value::NodeValue {
    open spec fn term(&self) -> TermModel {
        TermModel::Value(crate::value::ValueModel::Scalar(self@))
    }

    fn into_term(self) -> (t: Term) {
        Term::Value(Value::Scalar(self))
    }

    fn eval(&self) -> (r: Result<Value, Error>) {
        Ok(Value::Scalar(*self))
    }

    fn derivative(&self, k: &[&str], d: &Node) -> (r: Vec<Node>) {
        let t = Term::Value(Value::Scalar(*self));
        derivative_terms(&t, k, d)
    }

    fn is_zero(&self) -> (r: bool) {
        false
    }
}

impl Differentiable for crate::mat::MatrixNode {
    open spec fn term(&self) -> TermModel {
        TermModel::Value(crate::value::ValueModel::Matrix(self@))
    }

    fn into_term(self) -> (t: Term) {
        Term::Value(Value::Matrix(self))
    }

    fn eval(&self) -> (r: Result<Value, Error>) {
        Ok(Value::Matrix(self.clone()))
    }

    fn derivative(&self, k: &[&str], d: &Node) -> (r: Vec<Node>) {
        let t = Term::Value(Value::Matrix(self.clone()));
        derivative_terms(&t, k, d)
    }

    fn is_zero(&self) -> (r: bool) {
        crate::mat::MatrixNode::is_zero(self)
    }
}

impl core::ops::Add for Node {
    type Output = Node;

    /// Composes the sum of two expressions.
    fn add(self, rhs: Node) -> (r: Node) {
        Node(Term::Add(Box::new(self.0), Box::new(rhs.0)))
    }
}

impl vstd::std_specs::ops::AddSpecImpl for Node {
    open spec fn obeys_add_spec() -> bool {
        true
    }

    open spec fn add_req(self, rhs: Node) -> bool {
        true
    }

    open spec fn add_spec(self, rhs: Node) -> Node {
        Node(Term::Add(Box::new(self.0), Box::new(rhs.0)))
    }
}

impl core::ops::Sub for Node {
    type Output = Node;

    /// Composes the difference of two expressions.
    fn sub(self, rhs: Node) -> (r: Node) {
        Node(Term::Sub(Box::new(self.0), Box::new(rhs.0)))
    }
}

impl vstd::std_specs::ops::SubSpecImpl for Node {
    open spec fn obeys_sub_spec() -> bool {
        true
    }

    open spec fn sub_req(self, rhs: Node) -> bool {
        true
    }

    open spec fn sub_spec(self, rhs: Node) -> Node {
        Node(Term::Sub(Box::new(self.0), Box::new(rhs.0)))
    }
}

impl core::ops::Mul for Node {
    type Output = Node;

    /// Composes the (matrix or scalar) product of two expressions.
    fn mul(self, rhs: Node) -> (r: Node) {
        Node(Term::Mul(Box::new(self.0), Box::new(rhs.0)))
    }
}

impl vstd::std_specs::ops::MulSpecImpl for Node {
    open spec fn obeys_mul_spec() -> bool {
        true
    }

    open spec fn mul_req(self, rhs: Node) -> bool {
        true
    }

    open spec fn mul_spec(self, rhs: Node) -> Node {
        Node(Term::Mul(Box::new(self.0), Box::new(rhs.0)))
    }
}

impl core::ops::Div for Node {
    type Output = Node;

    /// Composes the elementwise quotient of two expressions.
    fn div(self, rhs: Node) -> (r: Node) {
        Node(Term::Div(Box::new(self.0), Box::new(rhs.0)))
    }
}

impl vstd::std_specs::ops::DivSpecImpl for Node {
    open spec fn obeys_div_spec() -> bool {
        true
    }

    open spec fn div_req(self, rhs: Node) -> bool {
        true
    }

    open spec fn div_spec(self, rhs: Node) -> Node {
        Node(Term::Div(Box::new(self.0), Box::new(rhs.0)))
    }
}

impl core::ops::Neg for Node {
    type Output = Node;

    /// Composes the additive inverse of an expression.
    fn neg(self) -> (r: Node) {
        Node(Term::Neg(Box::new(self.0)))
    }
}

impl vstd::std_specs::ops::NegSpecImpl for Node {
    open spec fn obeys_neg_spec() -> bool {
        true
    }

    open spec fn neg_req(self) -> bool {
        true
    }

    open spec fn neg_spec(self) -> Node {
        Node(Term::Neg(Box::new(self.0)))
    }
}

} // verus!
