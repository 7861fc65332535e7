use vstd::prelude::*;
use crate::error::Error;
use crate::mat::MatrixNode;
use crate::value::{NodeValue, Atom, Value, ValueModel, exp_model, elem_model, val_exp, val_elem_mul};

verus! {

/// The elementwise exponential on evaluated values.
pub trait Exp {
    type Output;

    fn exp(self) -> Self::Output where Self: Sized;
}

/// The commutative elementwise product on evaluated values.
pub trait ElemMul<Rhs> {
    type Output;

    fn elem_mul(self, rhs: Rhs) -> Self::Output where Self: Sized;
}

impl Exp for NodeValue {
    type Output = NodeValue;

    /// The fixed-point exponential of a scalar; total.
    fn exp(self) -> (r: NodeValue)
        ensures
            r@ == crate::value::exp_fix(self@),
    {
        NodeValue(crate::value::bits_exp(self.0))
    }
}

impl Exp for MatrixNode {
    type Output = Result<MatrixNode, Error>;

    /// The elementwise exponential of an optional matrix; the
    /// structural zero stays absent.
    fn exp(self) -> (r: Result<MatrixNode, Error>)
        ensures
            match r {
                Ok(m) => exp_model(ValueModel::Matrix(self@)) == Ok::<ValueModel, Error>(
                    ValueModel::Matrix(m@),
                ),
                Err(e) => exp_model(ValueModel::Matrix(self@)) == Err::<ValueModel, Error>(e),
            },
    {
        let v = Value::Matrix(self);
        match val_exp(&v) {
            Ok(Value::Matrix(m)) => Ok(m),
            Ok(_) => {
                proof {
                    assert(false);
                }
                Err(Error::UnsupportedCombination)
            },
            Err(e) => Err(e),
        }
    }
}

impl ElemMul<NodeValue> for NodeValue {
    type Output = Result<NodeValue, Error>;

    /// For scalars, the elementwise product is the plain product.
    fn elem_mul(self, rhs: NodeValue) -> (r: Result<NodeValue, Error>)
        ensures
            match r {
                Ok(v) => elem_model(ValueModel::Scalar(self@), ValueModel::Scalar(rhs@)) == Ok::<
                    ValueModel,
                    Error,
                >(ValueModel::Scalar(v@)),
                Err(e) => elem_model(ValueModel::Scalar(self@), ValueModel::Scalar(rhs@)) == Err::<
                    ValueModel,
                    Error,
                >(e),
            },
    {
        let a = Value::Scalar(self);
        let b = Value::Scalar(rhs);
        match val_elem_mul(&a, &b) {
            Ok(Value::Scalar(v)) => Ok(v),
            Ok(_) => {
                proof {
                    assert(false);
                }
                Err(Error::UnsupportedCombination)
            },
            Err(e) => Err(e),
        }
    }
}

impl ElemMul<MatrixNode> for MatrixNode {
    type Output = Result<MatrixNode, Error>;

    /// The Hadamard product; the structural zero annihilates.
    fn elem_mul(self, rhs: MatrixNode) -> (r: Result<MatrixNode, Error>)
        ensures
            match r {
                Ok(m) => elem_model(ValueModel::Matrix(self@), ValueModel::Matrix(rhs@)) == Ok::<
                    ValueModel,
                    Error,
                >(ValueModel::Matrix(m@)),
                Err(e) => elem_model(ValueModel::Matrix(self@), ValueModel::Matrix(rhs@)) == Err::<
                    ValueModel,
                    Error,
                >(e),
            },
    {
        let a = Value::Matrix(self);
        let b = Value::Matrix(rhs);
        match val_elem_mul(&a, &b) {
            Ok(Value::Matrix(m)) => Ok(m),
            Ok(_) => {
                proof {
                    assert(false);
                }
                Err(Error::UnsupportedCombination)
            },
            Err(e) => Err(e),
        }
    }
}

impl ElemMul<MatrixNode> for NodeValue {
    type Output = Result<MatrixNode, Error>;

    /// Scales every entry of the matrix by the scalar.
    fn elem_mul(self, rhs: MatrixNode) -> (r: Result<MatrixNode, Error>)
        ensures
            match r {
                Ok(m) => elem_model(ValueModel::Scalar(self@), ValueModel::Matrix(rhs@)) == Ok::<
                    ValueModel,
                    Error,
                >(ValueModel::Matrix(m@)),
                Err(e) => elem_model(ValueModel::Scalar(self@), ValueModel::Matrix(rhs@)) == Err::<
                    ValueModel,
                    Error,
                >(e),
            },
    {
        let a = Value::Scalar(self);
        let b = Value::Matrix(rhs);
        match val_elem_mul(&a, &b) {
            Ok(Value::Matrix(m)) => Ok(m),
            Ok(_) => {
                proof {
                    assert(false);
                }
                Err(Error::UnsupportedCombination)
            },
            Err(e) => Err(e),
        }
    }
}

impl ElemMul<NodeValue> for MatrixNode {
    type Output = Result<MatrixNode, Error>;

    /// Scales every entry of the matrix by the scalar.
    fn elem_mul(self, rhs: NodeValue) -> (r: Result<MatrixNode, Error>)
        ensures
            match r {
                Ok(m) => elem_model(ValueModel::Matrix(self@), ValueModel::Scalar(rhs@)) == Ok::<
                    ValueModel,
                    Error,
                >(ValueModel::Matrix(m@)),
                Err(e) => elem_model(ValueModel::Matrix(self@), ValueModel::Scalar(rhs@)) == Err::<
                    ValueModel,
                    Error,
                >(e),
            },
    {
        let a = Value::Matrix(self);
        let b = Value::Scalar(rhs);
        match val_elem_mul(&a, &b) {
            Ok(Value::Matrix(m)) => Ok(m),
            Ok(_) => {
                proof {
                    assert(false);
                }
                Err(Error::UnsupportedCombination)
            },
            Err(e) => Err(e),
        }
    }
}

impl ElemMul<MatrixNode> for Atom {
    type Output = Result<MatrixNode, Error>;

    /// Fills the matrix with zeroes for `Zero`, keeps it for `One`.
    fn elem_mul(self, rhs: MatrixNode) -> (r: Result<MatrixNode, Error>)
        ensures
            match r {
                Ok(m) => elem_model(ValueModel::Atom(self), ValueModel::Matrix(rhs@)) == Ok::<
                    ValueModel,
                    Error,
                >(ValueModel::Matrix(m@)),
                Err(e) => elem_model(ValueModel::Atom(self), ValueModel::Matrix(rhs@)) == Err::<
                    ValueModel,
                    Error,
                >(e),
            },
    {
        let a = Value::Atom(self);
        let b = Value::Matrix(rhs);
        match val_elem_mul(&a, &b) {
            Ok(Value::Matrix(m)) => Ok(m),
            Ok(_) => {
                proof {
                    assert(false);
                }
                Err(Error::UnsupportedCombination)
            },
            Err(e) => Err(e),
        }
    }
}

impl ElemMul<Atom> for MatrixNode {
    type Output = Result<MatrixNode, Error>;

    /// Fills the matrix with zeroes for `Zero`, keeps it for `One`.
    fn elem_mul(self, rhs: Atom) -> (r: Result<MatrixNode, Error>)
        ensures
            match r {
                Ok(m) => elem_model(ValueModel::Matrix(self@), ValueModel::Atom(rhs)) == Ok::<
                    ValueModel,
                    Error,
                >(ValueModel::Matrix(m@)),
                Err(e) => elem_model(ValueModel::Matrix(self@), ValueModel::Atom(rhs)) == Err::<
                    ValueModel,
                    Error,
                >(e),
            },
    {
        let a = Value::Matrix(self);
        let b = Value::Atom(rhs);
        match val_elem_mul(&a, &b) {
            Ok(Value::Matrix(m)) => Ok(m),
            Ok(_) => {
                proof {
                    assert(false);
                }
                Err(Error::UnsupportedCombination)
            },
            Err(e) => Err(e),
        }
    }
}

} // verus!
