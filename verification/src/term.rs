use vstd::prelude::*;
use crate::anon::AnonymousSymbol;
use crate::error::Error;
use crate::symbol::Symbol;
use crate::value::{
    Value, ValueModel, Atom, add_model, sub_model, mul_model, elem_model, div_model, neg_model,
    transpose_model, exp_model, sum_model, res_value, value_is_zero, val_add, val_sub, val_mul,
    val_elem_mul, val_div, val_neg, val_transpose, val_exp, val_sum,
};

verus! {

/// One node of an expression tree: a leaf holding a value, a named
/// symbol, or an operator over one or two operand sub-expressions.
/// Nodes are immutable once built; differentiation only reads them
/// and builds new trees.
#[derive(Debug)]
pub enum Term {
    /// A literal value: an atom, a scalar, or a matrix.
    Value(Value),
    /// A named binding of a sub-expression.
    Symbol(Box<Symbol>),
    /// A placeholder leaf with no value.
    Anonymous(AnonymousSymbol),
    /// Elementwise or scalar sum.
    Add(Box<Term>, Box<Term>),
    /// Elementwise or scalar difference.
    Sub(Box<Term>, Box<Term>),
    /// Additive inverse.
    Neg(Box<Term>),
    /// The matrix (or scalar) product; not commutative.
    Mul(Box<Term>, Box<Term>),
    /// The commutative elementwise product.
    ElemMul(Box<Term>, Box<Term>),
    /// The elementwise quotient.
    Div(Box<Term>, Box<Term>),
    /// The transpose; a no-op on scalar operands.
    Transpose(Box<Term>),
    /// The elementwise exponential.
    Exp(Box<Term>),
    /// The reduction of all entries to one scalar.
    Sum(Box<Term>),
}

/// The mathematical shape of an expression tree.
pub enum TermModel {
    Value(ValueModel),
    Symbol(Seq<char>, Box<TermModel>),
    Anonymous,
    Add(Box<TermModel>, Box<TermModel>),
    Sub(Box<TermModel>, Box<TermModel>),
    Neg(Box<TermModel>),
    Mul(Box<TermModel>, Box<TermModel>),
    ElemMul(Box<TermModel>, Box<TermModel>),
    Div(Box<TermModel>, Box<TermModel>),
    Transpose(Box<TermModel>),
    Exp(Box<TermModel>),
    Sum(Box<TermModel>),
}

pub open spec fn term_model(t: Term) -> TermModel
    decreases t,
{
    match t {
        Term::Value(v) => TermModel::Value(v@),
        Term::Symbol(s) => TermModel::Symbol(s.symbol@, Box::new(term_model(s.node))),
        Term::Anonymous(_) => TermModel::Anonymous,
        Term::Add(l, r) => TermModel::Add(Box::new(term_model(*l)), Box::new(term_model(*r))),
        Term::Sub(l, r) => TermModel::Sub(Box::new(term_model(*l)), Box::new(term_model(*r))),
        Term::Neg(e) => TermModel::Neg(Box::new(term_model(*e))),
        Term::Mul(l, r) => TermModel::Mul(Box::new(term_model(*l)), Box::new(term_model(*r))),
        Term::ElemMul(l, r) => TermModel::ElemMul(
            Box::new(term_model(*l)),
            Box::new(term_model(*r)),
        ),
        Term::Div(l, r) => TermModel::Div(Box::new(term_model(*l)), Box::new(term_model(*r))),
        Term::Transpose(e) => TermModel::Transpose(Box::new(term_model(*e))),
        Term::Exp(e) => TermModel::Exp(Box::new(term_model(*e))),
        Term::Sum(e) => TermModel::Sum(Box::new(term_model(*e))),
    }
}

impl View for Term {
    type V = TermModel;

    open spec fn view(&self) -> TermModel {
        term_model(*self)
    }
}

/// The value of an expression: leaves evaluate to what they hold, a
/// symbol to its bound sub-expression, and each operator combines the
/// values of its operands. Re-evaluating a shared sub-expression
/// recomputes it; there is no caching and no side effect.
pub open spec fn eval_term(t: TermModel) -> Result<ValueModel, Error>
    decreases t,
{
    match t {
        TermModel::Value(v) => Ok(v),
        TermModel::Symbol(_, n) => eval_term(*n),
        TermModel::Anonymous => Err(Error::Unevaluable),
        TermModel::Add(l, r) => match eval_term(*l) {
            Err(e) => Err(e),
            Ok(a) => match eval_term(*r) {
                Err(e) => Err(e),
                Ok(b) => add_model(a, b),
            },
        },
        TermModel::Sub(l, r) => match eval_term(*l) {
            Err(e) => Err(e),
            Ok(a) => match eval_term(*r) {
                Err(e) => Err(e),
                Ok(b) => sub_model(a, b),
            },
        },
        TermModel::Neg(e) => match eval_term(*e) {
            Err(e) => Err(e),
            Ok(a) => neg_model(a),
        },
        TermModel::Mul(l, r) => match eval_term(*l) {
            Err(e) => Err(e),
            Ok(a) => match eval_term(*r) {
                Err(e) => Err(e),
                Ok(b) => mul_model(a, b),
            },
        },
        TermModel::ElemMul(l, r) => match eval_term(*l) {
            Err(e) => Err(e),
            Ok(a) => match eval_term(*r) {
                Err(e) => Err(e),
                Ok(b) => elem_model(a, b),
            },
        },
        TermModel::Div(l, r) => match eval_term(*l) {
            Err(e) => Err(e),
            Ok(a) => match eval_term(*r) {
                Err(e) => Err(e),
                Ok(b) => div_model(a, b),
            },
        },
        TermModel::Transpose(e) => match eval_term(*e) {
            Err(e) => Err(e),
            Ok(a) => transpose_model(a),
        },
        TermModel::Exp(e) => match eval_term(*e) {
            Err(e) => Err(e),
            Ok(a) => exp_model(a),
        },
        TermModel::Sum(e) => match eval_term(*e) {
            Err(e) => Err(e),
            Ok(a) => sum_model(a),
        },
    }
}

/// The zero expression: the leaf holding the zero atom.
pub open spec fn zero_model() -> TermModel {
    TermModel::Value(ValueModel::Atom(Atom::Zero))
}

/// The seeded partial derivative of `t` with respect to the name
/// `k`: a new expression whose value is the derivative combined with
/// the seed `d` by the chain rule of each operator. Building it
/// performs no numeric work and never fails; only evaluating the
/// result can fail.
pub open spec fn deriv_term(t: TermModel, k: Seq<char>, d: TermModel) -> TermModel
    decreases t,
{
    match t {
        // Leaves carrying plain values do not depend on any name.
        TermModel::Value(_) => zero_model(),
        TermModel::Anonymous => zero_model(),
        // The base case: an indicator atom times the seed. Only here
        // is variable identity tested, by name equality.
        TermModel::Symbol(name, _) => TermModel::Mul(
            Box::new(
                TermModel::Value(
                    ValueModel::Atom(
                        if name == k {
                            Atom::One
                        } else {
                            Atom::Zero
                        },
                    ),
                ),
            ),
            Box::new(d),
        ),
        // The derivative of a sum distributes over the sum, with the
        // same seed passed unchanged to both operands.
        TermModel::Add(l, r) => TermModel::Add(
            Box::new(deriv_term(*l, k, d)),
            Box::new(deriv_term(*r, k, d)),
        ),
        // Subtraction negates the right contribution at the output.
        TermModel::Sub(l, r) => TermModel::Sub(
            Box::new(deriv_term(*l, k, d)),
            Box::new(deriv_term(*r, k, d)),
        ),
        TermModel::Neg(e) => deriv_term(*e, k, TermModel::Neg(Box::new(d))),
        // The product rule of the non-commutative product: the left
        // branch right-multiplies the seed by the other operand's
        // transpose, the right branch left-multiplies.
        TermModel::Mul(l, r) => TermModel::Add(
            Box::new(
                deriv_term(
                    *l,
                    k,
                    TermModel::Mul(Box::new(d), Box::new(TermModel::Transpose(r))),
                ),
            ),
            Box::new(
                deriv_term(
                    *r,
                    k,
                    TermModel::Mul(Box::new(TermModel::Transpose(l)), Box::new(d)),
                ),
            ),
        ),
        // The commutative elementwise product rule.
        TermModel::ElemMul(l, r) => TermModel::Add(
            Box::new(deriv_term(*l, k, TermModel::ElemMul(r, Box::new(d)))),
            Box::new(deriv_term(*r, k, TermModel::ElemMul(l, Box::new(d)))),
        ),
        // The quotient rule: d(x/y) = dx/y - (x/y^2) . dy.
        TermModel::Div(l, r) => TermModel::Sub(
            Box::new(deriv_term(*l, k, TermModel::Div(Box::new(d), r))),
            Box::new(
                deriv_term(
                    *r,
                    k,
                    TermModel::ElemMul(
                        Box::new(TermModel::Div(l, Box::new(TermModel::ElemMul(r, r)))),
                        Box::new(d),
                    ),
                ),
            ),
        ),
        // Transpose commutes with differentiation.
        TermModel::Transpose(e) => TermModel::Transpose(Box::new(deriv_term(*e, k, d))),
        // The self-referencing chain rule of the exponential: the
        // already-built node re-appears inside the new seed, to be
        // re-evaluated lazily rather than recomputed eagerly.
        TermModel::Exp(e) => deriv_term(
            *e,
            k,
            TermModel::ElemMul(Box::new(d), Box::new(TermModel::Exp(e))),
        ),
        // The gradient of a full reduction broadcasts the seed.
        TermModel::Sum(e) => deriv_term(*e, k, d),
    }
}

/// Whether a node is known to be the additive identity by structure
/// alone, without any evaluation.
pub open spec fn term_is_zero(t: TermModel) -> bool
    decreases t,
{
    match t {
        TermModel::Value(v) => value_is_zero(v),
        TermModel::Symbol(_, _) => false,
        TermModel::Anonymous => false,
        TermModel::Add(l, r) => term_is_zero(*l) && term_is_zero(*r),
        TermModel::Sub(l, r) => term_is_zero(*l) && term_is_zero(*r),
        TermModel::Neg(e) => term_is_zero(*e),
        TermModel::Mul(l, r) => term_is_zero(*l) || term_is_zero(*r),
        TermModel::ElemMul(l, r) => term_is_zero(*l) || term_is_zero(*r),
        TermModel::Div(l, r) => term_is_zero(*l),
        TermModel::Transpose(e) => term_is_zero(*e),
        TermModel::Exp(_) => false,
        TermModel::Sum(e) => term_is_zero(*e),
    }
}

/// Relies on `str`'s `PartialEq`: two string slices are equal exactly
/// when they hold the same characters.
#[verifier::external_body]
fn str_eq(a: &str, b: &str) -> (r: bool)
    ensures
        r == (a@ == b@),
{
    a == b
}

impl Clone for Term {
    fn clone(&self) -> (r: Self)
        ensures
            r@ == self@,
        decreases self,
    {
        match self {
            Term::Value(v) => Term::Value(v.clone()),
            Term::Symbol(s) => Term::Symbol(Box::new((&**s).clone())),
            Term::Anonymous(_) => Term::Anonymous(AnonymousSymbol),
            Term::Add(l, r) => Term::Add(Box::new((&**l).clone()), Box::new((&**r).clone())),
            Term::Sub(l, r) => Term::Sub(Box::new((&**l).clone()), Box::new((&**r).clone())),
            Term::Neg(e) => Term::Neg(Box::new((&**e).clone())),
            Term::Mul(l, r) => Term::Mul(Box::new((&**l).clone()), Box::new((&**r).clone())),
            Term::ElemMul(l, r) => Term::ElemMul(
                Box::new((&**l).clone()),
                Box::new((&**r).clone()),
            ),
            Term::Div(l, r) => Term::Div(Box::new((&**l).clone()), Box::new((&**r).clone())),
            Term::Transpose(e) => Term::Transpose(Box::new((&**e).clone())),
            Term::Exp(e) => Term::Exp(Box::new((&**e).clone())),
            Term::Sum(e) => Term::Sum(Box::new((&**e).clone())),
        }
    }
}

impl Term {
    /// Evaluates the expression bottom-up, exactly as `eval_term`
    /// describes.
    pub fn eval(&self) -> (r: Result<Value, Error>)
        ensures
            res_value(r) == eval_term(self@),
        decreases self,
    {
        match self {
            Term::Value(v) => Ok(v.clone()),
            Term::Symbol(s) => s.node.eval(),
            Term::Anonymous(_) => Err(Error::Unevaluable),
            Term::Add(l, r) => {
                let a = match l.eval() {
                    Ok(v) => v,
                    Err(e) => {
                        return Err(e);
                    },
                };
                let b = match r.eval() {
                    Ok(v) => v,
                    Err(e) => {
                        return Err(e);
                    },
                };
                val_add(&a, &b)
            },
            Term::Sub(l, r) => {
                let a = match l.eval() {
                    Ok(v) => v,
                    Err(e) => {
                        return Err(e);
                    },
                };
                let b = match r.eval() {
                    Ok(v) => v,
                    Err(e) => {
                        return Err(e);
                    },
                };
                val_sub(&a, &b)
            },
            Term::Neg(e) => {
                let a = match e.eval() {
                    Ok(v) => v,
                    Err(e) => {
                        return Err(e);
                    },
                };
                val_neg(&a)
            },
            Term::Mul(l, r) => {
                let a = match l.eval() {
                    Ok(v) => v,
                    Err(e) => {
                        return Err(e);
                    },
                };
                let b = match r.eval() {
                    Ok(v) => v,
                    Err(e) => {
                        return Err(e);
                    },
                };
                val_mul(&a, &b)
            },
            Term::ElemMul(l, r) => {
                let a = match l.eval() {
                    Ok(v) => v,
                    Err(e) => {
                        return Err(e);
                    },
                };
                let b = match r.eval() {
                    Ok(v) => v,
                    Err(e) => {
                        return Err(e);
                    },
                };
                val_elem_mul(&a, &b)
            },
            Term::Div(l, r) => {
                let a = match l.eval() {
                    Ok(v) => v,
                    Err(e) => {
                        return Err(e);
                    },
                };
                let b = match r.eval() {
                    Ok(v) => v,
                    Err(e) => {
                        return Err(e);
                    },
                };
                val_div(&a, &b)
            },
            Term::Transpose(e) => {
                let a = match e.eval() {
                    Ok(v) => v,
                    Err(e) => {
                        return Err(e);
                    },
                };
                val_transpose(&a)
            },
            Term::Exp(e) => {
                let a = match e.eval() {
                    Ok(v) => v,
                    Err(e) => {
                        return Err(e);
                    },
                };
                val_exp(&a)
            },
            Term::Sum(e) => {
                let a = match e.eval() {
                    Ok(v) => v,
                    Err(e) => {
                        return Err(e);
                    },
                };
                val_sum(&a)
            },
        }
    }

    /// Builds the seeded partial derivative with respect to one name,
    /// exactly as `deriv_term` describes. Operands of the original
    /// tree re-appear in the result by copy.
    pub fn derivative_for(&self, k: &str, d: &Term) -> (r: Term)
        ensures
            r@ == deriv_term(self@, k@, d@),
        decreases self,
    {
        proof {
            reveal_with_fuel(term_model, 5);
        }
        match self {
            Term::Value(_) => Term::Value(Value::Atom(Atom::Zero)),
            Term::Anonymous(_) => Term::Value(Value::Atom(Atom::Zero)),
            Term::Symbol(s) => {
                let ind = if str_eq(s.symbol, k) {
                    Atom::One
                } else {
                    Atom::Zero
                };
                Term::Mul(Box::new(Term::Value(Value::Atom(ind))), Box::new(d.clone()))
            },
            Term::Add(l, r) => Term::Add(
                Box::new(l.derivative_for(k, d)),
                Box::new(r.derivative_for(k, d)),
            ),
            Term::Sub(l, r) => Term::Sub(
                Box::new(l.derivative_for(k, d)),
                Box::new(r.derivative_for(k, d)),
            ),
            Term::Neg(e) => {
                let seed = Term::Neg(Box::new(d.clone()));
                e.derivative_for(k, &seed)
            },
            Term::Mul(l, r) => {
                let seed_l = Term::Mul(
                    Box::new(d.clone()),
                    Box::new(Term::Transpose(Box::new((&**r).clone()))),
                );
                let seed_r = Term::Mul(
                    Box::new(Term::Transpose(Box::new((&**l).clone()))),
                    Box::new(d.clone()),
                );
                Term::Add(
                    Box::new(l.derivative_for(k, &seed_l)),
                    Box::new(r.derivative_for(k, &seed_r)),
                )
            },
            Term::ElemMul(l, r) => {
                let seed_l = Term::ElemMul(Box::new((&**r).clone()), Box::new(d.clone()));
                let seed_r = Term::ElemMul(Box::new((&**l).clone()), Box::new(d.clone()));
                Term::Add(
                    Box::new(l.derivative_for(k, &seed_l)),
                    Box::new(r.derivative_for(k, &seed_r)),
                )
            },
            Term::Div(l, r) => {
                let seed_l = Term::Div(Box::new(d.clone()), Box::new((&**r).clone()));
                let seed_r = Term::ElemMul(
                    Box::new(
                        Term::Div(
                            Box::new((&**l).clone()),
                            Box::new(
                                Term::ElemMul(
                                    Box::new((&**r).clone()),
                                    Box::new((&**r).clone()),
                                ),
                            ),
                        ),
                    ),
                    Box::new(d.clone()),
                );
                Term::Sub(
                    Box::new(l.derivative_for(k, &seed_l)),
                    Box::new(r.derivative_for(k, &seed_r)),
                )
            },
            Term::Transpose(e) => Term::Transpose(Box::new(e.derivative_for(k, d))),
            Term::Exp(e) => {
                let seed = Term::ElemMul(
                    Box::new(d.clone()),
                    Box::new(Term::Exp(Box::new((&**e).clone()))),
                );
                e.derivative_for(k, &seed)
            },
            Term::Sum(e) => e.derivative_for(k, d),
        }
    }

    /// Whether this node is known to be the additive identity by
    /// structure alone.
    pub fn is_zero(&self) -> (r: bool)
        ensures
            r == term_is_zero(self@),
        decreases self,
    {
        match self {
            Term::Value(v) => v.is_zero(),
            Term::Symbol(_) => false,
            Term::Anonymous(_) => false,
            Term::Add(l, r) => l.is_zero() && r.is_zero(),
            Term::Sub(l, r) => l.is_zero() && r.is_zero(),
            Term::Neg(e) => e.is_zero(),
            Term::Mul(l, r) => l.is_zero() || r.is_zero(),
            Term::ElemMul(l, r) => l.is_zero() || r.is_zero(),
            Term::Div(l, _) => l.is_zero(),
            Term::Transpose(e) => e.is_zero(),
            Term::Exp(_) => false,
            Term::Sum(e) => e.is_zero(),
        }
    }
}

} // verus!
