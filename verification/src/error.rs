use vstd::prelude::*;

verus! {

/// The ways in which evaluating an expression can fail.
///
/// Building a derivative expression never fails by itself; these
/// kinds surface only when an expression is evaluated.
#[derive(Clone, Copy, Debug, PartialEq, Eq)]
pub enum Error {
    /// Two matrix operands whose shapes do not fit the operator that
    /// combines them, carrying both shapes as `(rows, cols)`.
    ShapeMismatch { expected: (usize, usize), actual: (usize, usize) },
    /// The operator has no rule for this pair of operand kinds.
    UnsupportedCombination,
    /// The divisor evaluated to zero, to `Atom::Zero`, or to the
    /// structural zero matrix.
    DivisionByZero,
    /// A result left the representable fixed-point range.
    Overflow,
    /// An anonymous symbol carries no value to evaluate.
    Unevaluable,
}

} // verus!
