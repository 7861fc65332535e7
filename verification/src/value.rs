use vstd::prelude::*;
use crate::error::Error;
use crate::mat::{
    MatModel, MatrixNode, Dense, mat_ew2, mat_ews, mat_mul, mat_transpose, mat_exp, mat_sum,
    ew2_k, ews_k, matmul_k, transpose_k, exp_k, sum_k, res_dense,
};

verus! {

/// The fixed-point scale, two to the thirtieth: a `NodeValue` with
/// bits `b` stands for the real number `b / SCALE`.
pub const SCALE: i64 = 0x4000_0000;

/// Half of the scale, added before dividing so that fixed-point
/// products and quotients round to the nearest representable value
/// (ties rounding up) instead of drifting toward minus infinity.
pub const HALF: i64 = 0x2000_0000;

/// Bound on the bits of every matrix entry (two to the sixtieth), so
/// that dot products and reductions can be accumulated without
/// leaving 128 bits.
pub const LIM: i64 = 0x1000_0000_0000_0000;

/// A two-valued stand-in for the additive and multiplicative
/// identities. `Zero` also stands for the structural zero matrix, so
/// arithmetic on atoms never materializes a full value.
#[derive(Clone, Copy, Debug, PartialEq, Eq, PartialOrd, Ord, Structural)]
pub enum Atom {
    Zero,
    One,
}

/// The fixed-point bits that an atom converts to.
pub open spec fn atom_bits(a: Atom) -> int {
    match a {
        Atom::Zero => 0,
        Atom::One => SCALE as int,
    }
}

impl Atom {
    /// Whether this atom is the additive identity.
    pub fn is_zero(&self) -> (r: bool)
        ensures
            r == (*self is Zero),
    {
        match self {
            Atom::Zero => true,
            Atom::One => false,
        }
    }

    /// Product of two atoms: `One` exactly when both are `One`.
    pub fn mul(self, rhs: Atom) -> (r: Atom)
        ensures
            r == atom_mul(self, rhs),
    {
        match (self, rhs) {
            (Atom::One, Atom::One) => Atom::One,
            _ => Atom::Zero,
        }
    }

    /// Sum of two atoms. `One + One` has no atom to stand for it and
    /// is a programming error, so it is ruled out up front.
    pub fn add(self, rhs: Atom) -> (r: Atom)
        requires
            !(self is One && rhs is One),
        ensures
            r == atom_add(self, rhs),
    {
        match (self, rhs) {
            (Atom::Zero, _) => rhs,
            (_, Atom::Zero) => self,
            (Atom::One, Atom::One) => Atom::One,
        }
    }
}

pub open spec fn atom_mul(a: Atom, b: Atom) -> Atom {
    if a is One && b is One {
        Atom::One
    } else {
        Atom::Zero
    }
}

/// Defined only when not both operands are `One`.
pub open spec fn atom_add(a: Atom, b: Atom) -> Atom {
    if a is Zero {
        b
    } else {
        a
    }
}

/// A fixed-point scalar value: the bits of the real number it stands
/// for, multiplied by `SCALE`.
#[derive(Clone, Copy, Debug, PartialEq, Eq, Structural)]
pub struct NodeValue(pub i64);

impl View for NodeValue {
    type V = int;

    open spec fn view(&self) -> int {
        self.0 as int
    }
}

impl NodeValue {
    /// The scalar standing for the integer `i`.
    pub fn from_int(i: i64) -> (r: NodeValue)
        requires
            i64::MIN <= i * SCALE <= i64::MAX,
        ensures
            r@ == i * SCALE,
    {
        NodeValue(i * SCALE)
    }
}

impl From<Atom> for NodeValue {
    /// `Zero` converts to the scalar 0, `One` to the scalar 1.
    fn from(a: Atom) -> (r: NodeValue) {
        match a {
            Atom::Zero => NodeValue(0),
            Atom::One => NodeValue(SCALE),
        }
    }
}

impl vstd::std_specs::convert::FromSpecImpl<Atom> for NodeValue {
    open spec fn obeys_from_spec() -> bool {
        true
    }

    open spec fn from_spec(a: Atom) -> NodeValue {
        match a {
            Atom::Zero => NodeValue(0),
            Atom::One => NodeValue(SCALE),
        }
    }
}

/// What a primitive element type must support to serve as the scalar
/// of this library: conversion from the zero/one atom.
pub trait Scalar: From<Atom> {

}

impl Scalar for NodeValue {

}

/// The binary operations shared by scalars and matrix entries.
#[derive(Clone, Copy, Debug, PartialEq, Eq, Structural)]
pub enum SOp {
    Add,
    Sub,
    Mul,
    Div,
}

pub open spec fn in_i64(x: int) -> bool {
    i64::MIN <= x <= i64::MAX
}

/// Fixed-point product, rounded to the nearest representable value.
pub open spec fn fmul(a: int, b: int) -> int {
    (a * b + HALF) / (SCALE as int)
}

/// The quotient `p / d` for positive `d`, rounded to the nearest
/// integer, ties up: doubling numerator and denominator makes room
/// for the added half.
pub open spec fn half_up(p: int, d: int) -> int {
    (2 * p + d) / (2 * d)
}

/// Fixed-point quotient, rounded to the nearest representable value.
/// A negative divisor negates both sides first, so the rounding rule
/// is the same whatever the signs.
pub open spec fn fdiv(a: int, b: int) -> int {
    if b > 0 {
        half_up(a * SCALE, b)
    } else {
        half_up(-(a * SCALE), -b)
    }
}

pub open spec fn sop_val(op: SOp, x: int, y: int) -> int {
    match op {
        SOp::Add => x + y,
        SOp::Sub => x - y,
        SOp::Mul => fmul(x, y),
        SOp::Div => fdiv(x, y),
    }
}

/// The exact outcome of one fixed-point operation whose result must
/// stay within `[lo, hi]`.
pub open spec fn sop_ok(op: SOp, x: int, y: int, lo: int, hi: int) -> Result<int, Error> {
    if op is Div && y == 0 {
        Err(Error::DivisionByZero)
    } else {
        let v = sop_val(op, x, y);
        if lo <= v <= hi {
            Ok(v)
        } else {
            Err(Error::Overflow)
        }
    }
}

/// One scalar operation: results may use the whole `i64` range.
pub open spec fn s_bin(op: SOp, x: int, y: int) -> Result<int, Error> {
    sop_ok(op, x, y, i64::MIN as int, i64::MAX as int)
}

pub open spec fn res_bits(r: Result<i64, Error>) -> Result<int, Error> {
    match r {
        Ok(v) => Ok(v as int),
        Err(e) => Err(e),
    }
}

pub(crate) proof fn lemma_mul_bounds(a: int, b: int, m: int)
    requires
        -m <= a <= m,
        -m <= b <= m,
        0 <= m,
    ensures
        -(m * m) <= a * b <= m * m,
{
    assert(-(m * m) <= a * b <= m * m) by (nonlinear_arith)
        requires
            -m <= a <= m,
            -m <= b <= m,
            0 <= m,
    ;
}

/// One fixed-point operation on raw bits, exact over the full `i64`
/// range of the operands.
pub fn bits_bin(op: SOp, x: i64, y: i64) -> (r: Result<i64, Error>)
    ensures
        res_bits(r) == s_bin(op, x as int, y as int),
{
    match op {
        SOp::Add => match x.checked_add(y) {
            Some(v) => Ok(v),
            None => Err(Error::Overflow),
        },
        SOp::Sub => match x.checked_sub(y) {
            Some(v) => Ok(v),
            None => Err(Error::Overflow),
        },
        SOp::Mul => {
            proof {
                lemma_mul_bounds(x as int, y as int, 0x8000_0000_0000_0000);
            }
            let p: i128 = (x as i128) * (y as i128) + (HALF as i128);
            match p.checked_div_euclid(SCALE as i128) {
                Some(q) => {
                    if q < i64::MIN as i128 || q > i64::MAX as i128 {
                        Err(Error::Overflow)
                    } else {
                        Ok(q as i64)
                    }
                },
                None => Err(Error::Overflow),
            }
        },
        SOp::Div => {
            if y == 0 {
                Err(Error::DivisionByZero)
            } else {
                proof {
                    lemma_mul_bounds(x as int, SCALE as int, 0x8000_0000_0000_0000);
                }
                let num: i128 = (x as i128) * (SCALE as i128);
                let p: i128 = if y > 0 {
                    2 * num + (y as i128)
                } else {
                    2 * (-num) + (-(y as i128))
                };
                let d: i128 = if y > 0 {
                    2 * (y as i128)
                } else {
                    2 * (-(y as i128))
                };
                match p.checked_div_euclid(d) {
                    Some(q) => {
                        if q < i64::MIN as i128 || q > i64::MAX as i128 {
                            Err(Error::Overflow)
                        } else {
                            Ok(q as i64)
                        }
                    },
                    None => Err(Error::Overflow),
                }
            }
        },
    }
}

/// A fully evaluated expression: an atom, a scalar, or an optional
/// matrix.
#[derive(Debug)]
pub enum Value {
    Atom(Atom),
    Scalar(NodeValue),
    Matrix(MatrixNode),
}

/// The mathematical shape of a `Value`.
pub enum ValueModel {
    Atom(Atom),
    Scalar(int),
    Matrix(Option<MatModel>),
}

impl View for Value {
    type V = ValueModel;

    open spec fn view(&self) -> ValueModel {
        match self {
            Value::Atom(a) => ValueModel::Atom(*a),
            Value::Scalar(s) => ValueModel::Scalar(s.0 as int),
            Value::Matrix(m) => ValueModel::Matrix(m@),
        }
    }
}

impl Clone for Value {
    fn clone(&self) -> (r: Self)
        ensures
            r@ == self@,
    {
        match self {
            Value::Atom(a) => Value::Atom(*a),
            Value::Scalar(s) => Value::Scalar(*s),
            Value::Matrix(m) => Value::Matrix(m.clone()),
        }
    }
}

impl Value {
    /// Whether this value is the additive identity by structure: the
    /// zero atom or the structural zero matrix. A scalar is never
    /// structurally zero, whatever it holds.
    pub fn is_zero(&self) -> (r: bool)
        ensures
            r == value_is_zero(self@),
    {
        match self {
            Value::Atom(a) => a.is_zero(),
            Value::Scalar(_) => false,
            Value::Matrix(m) => m.is_zero(),
        }
    }
}

pub open spec fn value_is_zero(v: ValueModel) -> bool {
    match v {
        ValueModel::Atom(a) => a is Zero,
        ValueModel::Scalar(_) => false,
        ValueModel::Matrix(m) => m is None,
    }
}

pub open spec fn res_value(r: Result<Value, Error>) -> Result<ValueModel, Error> {
    match r {
        Ok(v) => Ok(v@),
        Err(e) => Err(e),
    }
}

pub open spec fn s_to_v(r: Result<int, Error>) -> Result<ValueModel, Error> {
    match r {
        Ok(v) => Ok(ValueModel::Scalar(v)),
        Err(e) => Err(e),
    }
}

pub open spec fn m_to_v(r: Result<MatModel, Error>) -> Result<ValueModel, Error> {
    match r {
        Ok(m) => Ok(ValueModel::Matrix(Some(m))),
        Err(e) => Err(e),
    }
}

/// A scalar applied elementwise to an optional matrix: the
/// structural zero passes through untouched.
pub open spec fn mat_opt_s(op: SOp, m: Option<MatModel>, s: int, s_left: bool) -> Result<
    ValueModel,
    Error,
> {
    match m {
        None => Ok(ValueModel::Matrix(None)),
        Some(d) => m_to_v(mat_ews(op, d, s, s_left)),
    }
}

/// The sum of two values. Atoms convert to scalars or spread over
/// matrix entries; the absent matrix is the identity of matrix
/// addition; `One + One` has no atom and fails.
pub open spec fn add_model(a: ValueModel, b: ValueModel) -> Result<ValueModel, Error> {
    match (a, b) {
        (ValueModel::Atom(x), ValueModel::Atom(y)) => if x is One && y is One {
            Err(Error::Overflow)
        } else {
            Ok(ValueModel::Atom(atom_add(x, y)))
        },
        (ValueModel::Atom(x), ValueModel::Scalar(s)) => s_to_v(s_bin(SOp::Add, atom_bits(x), s)),
        (ValueModel::Scalar(s), ValueModel::Atom(x)) => s_to_v(s_bin(SOp::Add, s, atom_bits(x))),
        (ValueModel::Atom(x), ValueModel::Matrix(m)) => mat_opt_s(SOp::Add, m, atom_bits(x), false),
        (ValueModel::Matrix(m), ValueModel::Atom(x)) => mat_opt_s(SOp::Add, m, atom_bits(x), false),
        (ValueModel::Scalar(x), ValueModel::Scalar(y)) => s_to_v(s_bin(SOp::Add, x, y)),
        (ValueModel::Scalar(s), ValueModel::Matrix(m)) => mat_opt_s(SOp::Add, m, s, true),
        (ValueModel::Matrix(m), ValueModel::Scalar(s)) => mat_opt_s(SOp::Add, m, s, false),
        (ValueModel::Matrix(ma), ValueModel::Matrix(mb)) => match (ma, mb) {
            (None, None) => Ok(ValueModel::Matrix(None)),
            (None, Some(r)) => Ok(ValueModel::Matrix(Some(r))),
            (Some(l), None) => Ok(ValueModel::Matrix(Some(l))),
            (Some(l), Some(r)) => m_to_v(mat_ew2(SOp::Add, l, r)),
        },
    }
}

/// The difference of two values. The absent matrix subtracts as the
/// zero matrix, negating the right operand when only it is present.
pub open spec fn sub_model(a: ValueModel, b: ValueModel) -> Result<ValueModel, Error> {
    match (a, b) {
        (ValueModel::Atom(_), ValueModel::Atom(_)) => Err(Error::UnsupportedCombination),
        (ValueModel::Atom(x), ValueModel::Scalar(s)) => s_to_v(s_bin(SOp::Sub, atom_bits(x), s)),
        (ValueModel::Scalar(s), ValueModel::Atom(x)) => s_to_v(s_bin(SOp::Sub, s, atom_bits(x))),
        (ValueModel::Atom(_), ValueModel::Matrix(_)) => Err(Error::UnsupportedCombination),
        (ValueModel::Matrix(_), ValueModel::Atom(_)) => Err(Error::UnsupportedCombination),
        (ValueModel::Scalar(x), ValueModel::Scalar(y)) => s_to_v(s_bin(SOp::Sub, x, y)),
        (ValueModel::Scalar(s), ValueModel::Matrix(m)) => mat_opt_s(SOp::Sub, m, s, true),
        (ValueModel::Matrix(m), ValueModel::Scalar(s)) => mat_opt_s(SOp::Sub, m, s, false),
        (ValueModel::Matrix(ma), ValueModel::Matrix(mb)) => match (ma, mb) {
            (None, None) => Ok(ValueModel::Matrix(None)),
            (None, Some(r)) => m_to_v(mat_ews(SOp::Sub, r, 0, true)),
            (Some(l), None) => Ok(ValueModel::Matrix(Some(l))),
            (Some(l), Some(r)) => m_to_v(mat_ew2(SOp::Sub, l, r)),
        },
    }
}

/// The product of two values: the matrix product for two present
/// matrices, elementwise scaling between a scalar and a matrix. The
/// zero atom or the absent matrix collapses a matrix product to the
/// structural zero without any shape check.
pub open spec fn mul_model(a: ValueModel, b: ValueModel) -> Result<ValueModel, Error> {
    match (a, b) {
        (ValueModel::Atom(x), ValueModel::Atom(y)) => Ok(ValueModel::Atom(atom_mul(x, y))),
        (ValueModel::Atom(x), ValueModel::Scalar(s)) => if x is Zero {
            Ok(ValueModel::Scalar(0))
        } else {
            Ok(ValueModel::Scalar(s))
        },
        (ValueModel::Scalar(s), ValueModel::Atom(x)) => if x is Zero {
            Ok(ValueModel::Scalar(0))
        } else {
            Ok(ValueModel::Scalar(s))
        },
        (ValueModel::Atom(x), ValueModel::Matrix(m)) => if x is Zero {
            Ok(ValueModel::Matrix(None))
        } else {
            Ok(ValueModel::Matrix(m))
        },
        (ValueModel::Matrix(m), ValueModel::Atom(x)) => if x is Zero {
            Ok(ValueModel::Matrix(None))
        } else {
            Ok(ValueModel::Matrix(m))
        },
        (ValueModel::Scalar(x), ValueModel::Scalar(y)) => s_to_v(s_bin(SOp::Mul, x, y)),
        (ValueModel::Scalar(s), ValueModel::Matrix(m)) => mat_opt_s(SOp::Mul, m, s, true),
        (ValueModel::Matrix(m), ValueModel::Scalar(s)) => mat_opt_s(SOp::Mul, m, s, false),
        (ValueModel::Matrix(ma), ValueModel::Matrix(mb)) => match (ma, mb) {
            (Some(l), Some(r)) => m_to_v(mat_mul(l, r)),
            _ => Ok(ValueModel::Matrix(None)),
        },
    }
}

/// The commutative elementwise product. The structural zero matrix
/// annihilates; the zero atom fills a present matrix with zeroes.
pub open spec fn elem_model(a: ValueModel, b: ValueModel) -> Result<ValueModel, Error> {
    match (a, b) {
        (ValueModel::Atom(_), ValueModel::Atom(_)) => Err(Error::UnsupportedCombination),
        (ValueModel::Atom(x), ValueModel::Scalar(s)) => s_to_v(s_bin(SOp::Mul, atom_bits(x), s)),
        (ValueModel::Scalar(s), ValueModel::Atom(x)) => s_to_v(s_bin(SOp::Mul, s, atom_bits(x))),
        (ValueModel::Atom(x), ValueModel::Matrix(m)) => mat_opt_s(SOp::Mul, m, atom_bits(x), false),
        (ValueModel::Matrix(m), ValueModel::Atom(x)) => mat_opt_s(SOp::Mul, m, atom_bits(x), false),
        (ValueModel::Scalar(x), ValueModel::Scalar(y)) => s_to_v(s_bin(SOp::Mul, x, y)),
        (ValueModel::Scalar(s), ValueModel::Matrix(m)) => mat_opt_s(SOp::Mul, m, s, true),
        (ValueModel::Matrix(m), ValueModel::Scalar(s)) => mat_opt_s(SOp::Mul, m, s, false),
        (ValueModel::Matrix(ma), ValueModel::Matrix(mb)) => match (ma, mb) {
            (Some(l), Some(r)) => m_to_v(mat_ew2(SOp::Mul, l, r)),
            _ => Ok(ValueModel::Matrix(None)),
        },
    }
}

pub open spec fn divisor_is_zero(b: ValueModel) -> bool {
    match b {
        ValueModel::Atom(x) => x is Zero,
        ValueModel::Scalar(s) => s == 0,
        ValueModel::Matrix(m) => m is None,
    }
}

/// The elementwise quotient. A divisor that is exactly zero — the
/// scalar zero, the zero atom, or the structural zero matrix — is an
/// explicit error, never a silent pass-through.
pub open spec fn div_model(a: ValueModel, b: ValueModel) -> Result<ValueModel, Error> {
    if divisor_is_zero(b) {
        Err(Error::DivisionByZero)
    } else {
        match (a, b) {
            (ValueModel::Atom(_), ValueModel::Atom(_)) => Err(Error::UnsupportedCombination),
            (ValueModel::Atom(x), ValueModel::Scalar(s)) => s_to_v(
                s_bin(SOp::Div, atom_bits(x), s),
            ),
            (ValueModel::Scalar(s), ValueModel::Atom(_)) => Ok(ValueModel::Scalar(s)),
            (ValueModel::Atom(_), ValueModel::Matrix(_)) => Err(Error::UnsupportedCombination),
            (ValueModel::Matrix(m), ValueModel::Atom(_)) => Ok(ValueModel::Matrix(m)),
            (ValueModel::Scalar(x), ValueModel::Scalar(y)) => s_to_v(s_bin(SOp::Div, x, y)),
            (ValueModel::Scalar(s), ValueModel::Matrix(m)) => mat_opt_s(SOp::Div, m, s, true),
            (ValueModel::Matrix(m), ValueModel::Scalar(s)) => mat_opt_s(SOp::Div, m, s, false),
            (ValueModel::Matrix(_), ValueModel::Matrix(_)) => Err(Error::UnsupportedCombination),
        }
    }
}

/// The additive inverse of a value.
pub open spec fn neg_model(a: ValueModel) -> Result<ValueModel, Error> {
    match a {
        ValueModel::Atom(_) => Err(Error::UnsupportedCombination),
        ValueModel::Scalar(s) => s_to_v(s_bin(SOp::Sub, 0, s)),
        ValueModel::Matrix(m) => mat_opt_s(SOp::Sub, m, 0, true),
    }
}

/// The transpose of a value: a no-op on atoms and scalars.
pub open spec fn transpose_model(a: ValueModel) -> Result<ValueModel, Error> {
    match a {
        ValueModel::Atom(x) => Ok(ValueModel::Atom(x)),
        ValueModel::Scalar(s) => Ok(ValueModel::Scalar(s)),
        ValueModel::Matrix(m) => match m {
            None => Ok(ValueModel::Matrix(None)),
            Some(d) => Ok(ValueModel::Matrix(Some(mat_transpose(d)))),
        },
    }
}

/// The elementwise exponential of a value. The structural zero
/// matrix stays absent rather than filling with ones.
pub open spec fn exp_model(a: ValueModel) -> Result<ValueModel, Error> {
    match a {
        ValueModel::Atom(_) => Err(Error::UnsupportedCombination),
        ValueModel::Scalar(s) => Ok(ValueModel::Scalar(exp_fix(s))),
        ValueModel::Matrix(m) => match m {
            None => Ok(ValueModel::Matrix(None)),
            Some(d) => m_to_v(mat_exp(d)),
        },
    }
}

/// The full reduction of a value to one scalar: the sum of all
/// matrix entries, with the absent matrix summing to zero.
pub open spec fn sum_model(a: ValueModel) -> Result<ValueModel, Error> {
    match a {
        ValueModel::Atom(_) => Err(Error::UnsupportedCombination),
        ValueModel::Scalar(s) => Ok(ValueModel::Scalar(s)),
        ValueModel::Matrix(m) => match m {
            None => Ok(ValueModel::Scalar(0)),
            Some(d) => s_to_v(mat_sum(d)),
        },
    }
}

/// The natural logarithm of two at scale `SCALE`, rounded down.
pub const LN2: i64 = 744_261_117;

/// Number of Taylor terms used for the exponential on `[0, ln 2)`.
pub const EXP_TERMS: u64 = 14;

/// The n-th Taylor term of the fixed-point exponential at `r`:
/// term 0 is one, and each step multiplies by `r / (n + 1)`.
pub open spec fn exp_term(r: int, n: nat) -> int
    decreases n,
{
    if n == 0 {
        SCALE as int
    } else {
        fmul(exp_term(r, (n - 1) as nat), r) / (n as int)
    }
}

/// The Taylor series of the fixed-point exponential at `r`, summed
/// through term `n`.
pub open spec fn exp_series(r: int, n: nat) -> int
    decreases n,
{
    if n == 0 {
        exp_term(r, 0)
    } else {
        exp_series(r, (n - 1) as nat) + exp_term(r, n)
    }
}

/// Doubling that sticks at `i64::MAX` instead of leaving the range.
pub open spec fn dbl_sat(v: int, k: nat) -> int
    decreases k,
{
    if k == 0 {
        v
    } else {
        dbl_sat(
            if 2 * v > i64::MAX {
                i64::MAX as int
            } else {
                2 * v
            },
            (k - 1) as nat,
        )
    }
}

/// The fixed-point exponential of a nonnegative argument: the series
/// on the fractional part, doubled once per whole multiple of ln 2,
/// saturating at `i64::MAX`.
pub open spec fn exp_pos(x: int) -> int {
    let k = x / (LN2 as int);
    let r = x % (LN2 as int);
    let kk: nat = if k >= 34 {
        34nat
    } else {
        k as nat
    };
    dbl_sat(exp_series(r, EXP_TERMS as nat), kk)
}

/// The fixed-point exponential, with negative arguments handled as
/// the reciprocal of the positive side. Total and deterministic.
pub open spec fn exp_fix(x: int) -> int {
    if x >= 0 {
        exp_pos(x)
    } else {
        (SCALE * SCALE) / exp_pos(-x)
    }
}

proof fn lemma_exp_term_bounds(r: int, n: nat)
    requires
        0 <= r <= SCALE,
    ensures
        0 <= exp_term(r, n) <= SCALE,
    decreases n,
{
    if n > 0 {
        lemma_exp_term_bounds(r, (n - 1) as nat);
        let t = exp_term(r, (n - 1) as nat);
        assert(0 <= t * r <= SCALE * SCALE) by (nonlinear_arith)
            requires
                0 <= t <= SCALE,
                0 <= r <= SCALE,
        ;
        vstd::arithmetic::div_mod::lemma_div_pos_is_pos(t * r, SCALE as int);
        vstd::arithmetic::div_mod::lemma_div_is_ordered(t * r, SCALE * SCALE, SCALE as int);
        vstd::arithmetic::div_mod::lemma_div_by_multiple(SCALE as int, SCALE as int);
        vstd::arithmetic::div_mod::lemma_div_pos_is_pos(fmul(t, r), n as int);
        vstd::arithmetic::div_mod::lemma_div_nonincreasing(fmul(t, r), n as int);
    }
}

proof fn lemma_exp_series_bounds(r: int, n: nat)
    requires
        0 <= r <= SCALE,
    ensures
        SCALE <= exp_series(r, n) <= SCALE * (n + 1),
    decreases n,
{
    lemma_exp_term_bounds(r, n);
    if n > 0 {
        lemma_exp_series_bounds(r, (n - 1) as nat);
        assert(SCALE * (n + 1) == SCALE * n + SCALE) by (nonlinear_arith);
    }
}

proof fn lemma_dbl_sat_bounds(v: int, k: nat)
    requires
        0 <= v <= i64::MAX,
    ensures
        v <= dbl_sat(v, k) <= i64::MAX,
    decreases k,
{
    if k > 0 {
        if 2 * v > i64::MAX {
            lemma_dbl_sat_bounds(i64::MAX as int, (k - 1) as nat);
        } else {
            lemma_dbl_sat_bounds(2 * v, (k - 1) as nat);
        }
    }
}

/// The fixed-point exponential always lands in the nonnegative
/// machine range, whatever its argument.
pub proof fn lemma_exp_fix_range(x: int)
    ensures
        0 <= exp_fix(x) <= i64::MAX,
{
    if x >= 0 {
        lemma_exp_pos_bounds(x);
    } else {
        lemma_exp_pos_bounds(-x);
        let e = exp_pos(-x);
        vstd::arithmetic::div_mod::lemma_div_pos_is_pos(SCALE * SCALE, e);
        vstd::arithmetic::div_mod::lemma_div_is_ordered(SCALE * SCALE, (SCALE * SCALE) * e, e);
        assert(SCALE * SCALE <= (SCALE * SCALE) * e) by (nonlinear_arith)
            requires
                1 <= e,
                0 < SCALE * SCALE,
        ;
        vstd::arithmetic::div_mod::lemma_div_by_multiple(SCALE * SCALE, e);
    }
}

/// The fixed-point exponential on raw bits.
pub fn bits_exp(x: i64) -> (r: i64)
    ensures
        r == exp_fix(x as int),
        0 <= r,
{
    if x >= 0 {
        let r = exp_pos_bits(x as u64);
        proof {
            lemma_exp_pos_bounds(x as int);
        }
        r
    } else {
        let mag: u64 = (-(x as i128)) as u64;
        let e = exp_pos_bits(mag);
        proof {
            lemma_exp_pos_bounds(mag as int);
        }
        let num: i128 = (SCALE as i128) * (SCALE as i128);
        match num.checked_div_euclid(e as i128) {
            Some(q) => {
                proof {
                    vstd::arithmetic::div_mod::lemma_div_pos_is_pos(num as int, e as int);
                    vstd::arithmetic::div_mod::lemma_div_is_ordered(
                        num as int,
                        (SCALE * SCALE) * (e as int),
                        e as int,
                    );
                    assert(num as int <= (SCALE * SCALE) * (e as int)) by (nonlinear_arith)
                        requires
                            1 <= e as int,
                            num as int == SCALE * SCALE,
                    ;
                    vstd::arithmetic::div_mod::lemma_div_by_multiple(SCALE * SCALE, e as int);
                }
                q as i64
            },
            None => 0,
        }
    }
}

proof fn lemma_exp_pos_bounds(x: int)
    requires
        0 <= x,
    ensures
        SCALE <= exp_pos(x) <= i64::MAX,
{
    let r = x % (LN2 as int);
    vstd::arithmetic::div_mod::lemma_remainder_lower(x, LN2 as int);
    vstd::arithmetic::div_mod::lemma_remainder_upper(x, LN2 as int);
    vstd::arithmetic::div_mod::lemma_fundamental_div_mod(x, LN2 as int);
    lemma_exp_series_bounds(r, EXP_TERMS as nat);
    let s = exp_series(r, EXP_TERMS as nat);
    let k = x / (LN2 as int);
    vstd::arithmetic::div_mod::lemma_div_pos_is_pos(x, LN2 as int);
    let kk: nat = if k >= 34 {
        34nat
    } else {
        k as nat
    };
    lemma_dbl_sat_bounds(s, kk);
}

/// The series and doubling loop behind the exponential, on the
/// magnitude of the argument.
fn exp_pos_bits(mag: u64) -> (r: i64)
    ensures
        r == exp_pos(mag as int),
{
    let k: u64 = mag / (LN2 as u64);
    let rr: u64 = mag % (LN2 as u64);
    let r: i64 = rr as i64;
    proof {
        assert(k == (mag as int) / (LN2 as int));
        assert(r == (mag as int) % (LN2 as int));
        assert(0 <= r < LN2);
    }
    // Taylor series on the fractional part.
    let mut term: i64 = SCALE;
    let mut acc: i64 = SCALE;
    let mut n: u64 = 1;
    while n <= EXP_TERMS
        invariant
            1 <= n <= EXP_TERMS + 1,
            0 <= r < LN2,
            term == exp_term(r as int, (n - 1) as nat),
            acc == exp_series(r as int, (n - 1) as nat),
            0 <= term <= SCALE,
            SCALE <= acc <= SCALE * n,
        decreases EXP_TERMS + 1 - n,
    {
        proof {
            lemma_exp_term_bounds(r as int, n as nat);
            lemma_exp_series_bounds(r as int, n as nat);
            assert(0 <= term * r <= SCALE * SCALE) by (nonlinear_arith)
                requires
                    0 <= term <= SCALE,
                    0 <= r <= SCALE,
            ;
        }
        let p: i64 = term * r + HALF;
        let q: i64 = ((p as u64) / (SCALE as u64)) as i64;
        proof {
            vstd::arithmetic::div_mod::lemma_div_pos_is_pos(p as int, SCALE as int);
            vstd::arithmetic::div_mod::lemma_div_is_ordered(
                p as int,
                SCALE * SCALE + HALF,
                SCALE as int,
            );
            vstd::arithmetic::div_mod::lemma_fundamental_div_mod_converse_div(
                SCALE * SCALE + HALF,
                SCALE as int,
                SCALE as int,
                HALF as int,
            );
            assert(q == fmul(term as int, r as int));
        }
        let t2: i64 = ((q as u64) / n) as i64;
        proof {
            vstd::arithmetic::div_mod::lemma_div_pos_is_pos(q as int, n as int);
            vstd::arithmetic::div_mod::lemma_div_nonincreasing(q as int, n as int);
            assert(t2 == exp_term(r as int, n as nat));
        }
        term = t2;
        acc = acc + term;
        n = n + 1;
    }
    // One doubling per whole multiple of ln 2, saturating.
    let kk: u64 = if k >= 34 {
        34
    } else {
        k
    };
    let ghost kn: nat = kk as nat;
    let ghost target: int = dbl_sat(acc as int, kn);
    let mut w: i64 = acc;
    let mut i: u64 = 0;
    while i < kk
        invariant
            0 <= i <= kk,
            0 <= w <= i64::MAX,
            dbl_sat(w as int, (kk - i) as nat) == target,
        decreases kk - i,
    {
        if w > 0x3FFF_FFFF_FFFF_FFFF {
            w = i64::MAX;
        } else {
            w = 2 * w;
        }
        i = i + 1;
    }
    w
}

fn bits_of_atom(a: Atom) -> (r: i64)
    ensures
        r as int == atom_bits(a),
{
    match a {
        Atom::Zero => 0,
        Atom::One => SCALE,
    }
}

fn scalar_res(r: Result<i64, Error>) -> (v: Result<Value, Error>)
    ensures
        res_value(v) == s_to_v(res_bits(r)),
{
    match r {
        Ok(x) => Ok(Value::Scalar(NodeValue(x))),
        Err(e) => Err(e),
    }
}

fn dense_res(r: Result<Dense, Error>) -> (v: Result<Value, Error>)
    ensures
        res_value(v) == m_to_v(res_dense(r)),
{
    match r {
        Ok(d) => Ok(Value::Matrix(MatrixNode(Some(d)))),
        Err(e) => Err(e),
    }
}

fn mat_opt_s_k(op: SOp, m: &MatrixNode, s: i64, s_left: bool) -> (r: Result<Value, Error>)
    ensures
        res_value(r) == mat_opt_s(op, m@, s as int, s_left),
{
    match &m.0 {
        None => Ok(Value::Matrix(MatrixNode(None))),
        Some(d) => dense_res(ews_k(op, d, s, s_left)),
    }
}

/// The sum of two evaluated values.
pub(crate) fn val_add(a: &Value, b: &Value) -> (r: Result<Value, Error>)
    ensures
        res_value(r) == add_model(a@, b@),
{
    match (a, b) {
        (Value::Atom(x), Value::Atom(y)) => {
            if matches!(x, Atom::One) && matches!(y, Atom::One) {
                Err(Error::Overflow)
            } else {
                Ok(Value::Atom(x.add(*y)))
            }
        },
        (Value::Atom(x), Value::Scalar(s)) => scalar_res(bits_bin(SOp::Add, bits_of_atom(*x), s.0)),
        (Value::Scalar(s), Value::Atom(x)) => scalar_res(bits_bin(SOp::Add, s.0, bits_of_atom(*x))),
        (Value::Atom(x), Value::Matrix(m)) => mat_opt_s_k(SOp::Add, m, bits_of_atom(*x), false),
        (Value::Matrix(m), Value::Atom(x)) => mat_opt_s_k(SOp::Add, m, bits_of_atom(*x), false),
        (Value::Scalar(x), Value::Scalar(y)) => scalar_res(bits_bin(SOp::Add, x.0, y.0)),
        (Value::Scalar(s), Value::Matrix(m)) => mat_opt_s_k(SOp::Add, m, s.0, true),
        (Value::Matrix(m), Value::Scalar(s)) => mat_opt_s_k(SOp::Add, m, s.0, false),
        (Value::Matrix(ma), Value::Matrix(mb)) => match (&ma.0, &mb.0) {
            (None, None) => Ok(Value::Matrix(MatrixNode(None))),
            (None, Some(rr)) => Ok(Value::Matrix(MatrixNode(Some(rr.clone())))),
            (Some(l), None) => Ok(Value::Matrix(MatrixNode(Some(l.clone())))),
            (Some(l), Some(rr)) => dense_res(ew2_k(SOp::Add, l, rr)),
        },
    }
}

/// The difference of two evaluated values.
pub(crate) fn val_sub(a: &Value, b: &Value) -> (r: Result<Value, Error>)
    ensures
        res_value(r) == sub_model(a@, b@),
{
    match (a, b) {
        (Value::Atom(_), Value::Atom(_)) => Err(Error::UnsupportedCombination),
        (Value::Atom(x), Value::Scalar(s)) => scalar_res(bits_bin(SOp::Sub, bits_of_atom(*x), s.0)),
        (Value::Scalar(s), Value::Atom(x)) => scalar_res(bits_bin(SOp::Sub, s.0, bits_of_atom(*x))),
        (Value::Atom(_), Value::Matrix(_)) => Err(Error::UnsupportedCombination),
        (Value::Matrix(_), Value::Atom(_)) => Err(Error::UnsupportedCombination),
        (Value::Scalar(x), Value::Scalar(y)) => scalar_res(bits_bin(SOp::Sub, x.0, y.0)),
        (Value::Scalar(s), Value::Matrix(m)) => mat_opt_s_k(SOp::Sub, m, s.0, true),
        (Value::Matrix(m), Value::Scalar(s)) => mat_opt_s_k(SOp::Sub, m, s.0, false),
        (Value::Matrix(ma), Value::Matrix(mb)) => match (&ma.0, &mb.0) {
            (None, None) => Ok(Value::Matrix(MatrixNode(None))),
            (None, Some(rr)) => dense_res(ews_k(SOp::Sub, rr, 0, true)),
            (Some(l), None) => Ok(Value::Matrix(MatrixNode(Some(l.clone())))),
            (Some(l), Some(rr)) => dense_res(ew2_k(SOp::Sub, l, rr)),
        },
    }
}

/// The product of two evaluated values.
pub(crate) fn val_mul(a: &Value, b: &Value) -> (r: Result<Value, Error>)
    ensures
        res_value(r) == mul_model(a@, b@),
{
    match (a, b) {
        (Value::Atom(x), Value::Atom(y)) => Ok(Value::Atom(x.mul(*y))),
        (Value::Atom(x), Value::Scalar(s)) => match x {
            Atom::Zero => Ok(Value::Scalar(NodeValue(0))),
            Atom::One => Ok(Value::Scalar(*s)),
        },
        (Value::Scalar(s), Value::Atom(x)) => match x {
            Atom::Zero => Ok(Value::Scalar(NodeValue(0))),
            Atom::One => Ok(Value::Scalar(*s)),
        },
        (Value::Atom(x), Value::Matrix(m)) => match x {
            Atom::Zero => Ok(Value::Matrix(MatrixNode(None))),
            Atom::One => Ok(Value::Matrix(m.clone())),
        },
        (Value::Matrix(m), Value::Atom(x)) => match x {
            Atom::Zero => Ok(Value::Matrix(MatrixNode(None))),
            Atom::One => Ok(Value::Matrix(m.clone())),
        },
        (Value::Scalar(x), Value::Scalar(y)) => scalar_res(bits_bin(SOp::Mul, x.0, y.0)),
        (Value::Scalar(s), Value::Matrix(m)) => mat_opt_s_k(SOp::Mul, m, s.0, true),
        (Value::Matrix(m), Value::Scalar(s)) => mat_opt_s_k(SOp::Mul, m, s.0, false),
        (Value::Matrix(ma), Value::Matrix(mb)) => match (&ma.0, &mb.0) {
            (Some(l), Some(rr)) => dense_res(matmul_k(l, rr)),
            _ => Ok(Value::Matrix(MatrixNode(None))),
        },
    }
}

/// The commutative elementwise product of two evaluated values.
pub(crate) fn val_elem_mul(a: &Value, b: &Value) -> (r: Result<Value, Error>)
    ensures
        res_value(r) == elem_model(a@, b@),
{
    match (a, b) {
        (Value::Atom(_), Value::Atom(_)) => Err(Error::UnsupportedCombination),
        (Value::Atom(x), Value::Scalar(s)) => scalar_res(bits_bin(SOp::Mul, bits_of_atom(*x), s.0)),
        (Value::Scalar(s), Value::Atom(x)) => scalar_res(bits_bin(SOp::Mul, s.0, bits_of_atom(*x))),
        (Value::Atom(x), Value::Matrix(m)) => mat_opt_s_k(SOp::Mul, m, bits_of_atom(*x), false),
        (Value::Matrix(m), Value::Atom(x)) => mat_opt_s_k(SOp::Mul, m, bits_of_atom(*x), false),
        (Value::Scalar(x), Value::Scalar(y)) => scalar_res(bits_bin(SOp::Mul, x.0, y.0)),
        (Value::Scalar(s), Value::Matrix(m)) => mat_opt_s_k(SOp::Mul, m, s.0, true),
        (Value::Matrix(m), Value::Scalar(s)) => mat_opt_s_k(SOp::Mul, m, s.0, false),
        (Value::Matrix(ma), Value::Matrix(mb)) => match (&ma.0, &mb.0) {
            (Some(l), Some(rr)) => dense_res(ew2_k(SOp::Mul, l, rr)),
            _ => Ok(Value::Matrix(MatrixNode(None))),
        },
    }
}

fn divisor_zero(b: &Value) -> (r: bool)
    ensures
        r == divisor_is_zero(b@),
{
    match b {
        Value::Atom(x) => x.is_zero(),
        Value::Scalar(s) => s.0 == 0,
        Value::Matrix(m) => m.is_zero(),
    }
}

/// The elementwise quotient of two evaluated values.
pub(crate) fn val_div(a: &Value, b: &Value) -> (r: Result<Value, Error>)
    ensures
        res_value(r) == div_model(a@, b@),
{
    if divisor_zero(b) {
        return Err(Error::DivisionByZero);
    }
    match (a, b) {
        (Value::Atom(_), Value::Atom(_)) => Err(Error::UnsupportedCombination),
        (Value::Atom(x), Value::Scalar(s)) => scalar_res(bits_bin(SOp::Div, bits_of_atom(*x), s.0)),
        (Value::Scalar(s), Value::Atom(_)) => Ok(Value::Scalar(*s)),
        (Value::Atom(_), Value::Matrix(_)) => Err(Error::UnsupportedCombination),
        (Value::Matrix(m), Value::Atom(_)) => Ok(Value::Matrix(m.clone())),
        (Value::Scalar(x), Value::Scalar(y)) => scalar_res(bits_bin(SOp::Div, x.0, y.0)),
        (Value::Scalar(s), Value::Matrix(m)) => mat_opt_s_k(SOp::Div, m, s.0, true),
        (Value::Matrix(m), Value::Scalar(s)) => mat_opt_s_k(SOp::Div, m, s.0, false),
        (Value::Matrix(_), Value::Matrix(_)) => Err(Error::UnsupportedCombination),
    }
}

/// The additive inverse of an evaluated value.
pub(crate) fn val_neg(a: &Value) -> (r: Result<Value, Error>)
    ensures
        res_value(r) == neg_model(a@),
{
    match a {
        Value::Atom(_) => Err(Error::UnsupportedCombination),
        Value::Scalar(s) => scalar_res(bits_bin(SOp::Sub, 0, s.0)),
        Value::Matrix(m) => mat_opt_s_k(SOp::Sub, m, 0, true),
    }
}

/// The transpose of an evaluated value; atoms and scalars pass
/// through unchanged.
pub(crate) fn val_transpose(a: &Value) -> (r: Result<Value, Error>)
    ensures
        res_value(r) == transpose_model(a@),
{
    match a {
        Value::Atom(x) => Ok(Value::Atom(*x)),
        Value::Scalar(s) => Ok(Value::Scalar(*s)),
        Value::Matrix(m) => match &m.0 {
            None => Ok(Value::Matrix(MatrixNode(None))),
            Some(d) => Ok(Value::Matrix(MatrixNode(Some(transpose_k(d))))),
        },
    }
}

/// The elementwise exponential of an evaluated value.
pub(crate) fn val_exp(a: &Value) -> (r: Result<Value, Error>)
    ensures
        res_value(r) == exp_model(a@),
{
    match a {
        Value::Atom(_) => Err(Error::UnsupportedCombination),
        Value::Scalar(s) => Ok(Value::Scalar(NodeValue(bits_exp(s.0)))),
        Value::Matrix(m) => match &m.0 {
            None => Ok(Value::Matrix(MatrixNode(None))),
            Some(d) => dense_res(exp_k(d)),
        },
    }
}

/// The full reduction of an evaluated value to one scalar.
pub(crate) fn val_sum(a: &Value) -> (r: Result<Value, Error>)
    ensures
        res_value(r) == sum_model(a@),
{
    match a {
        Value::Atom(_) => Err(Error::UnsupportedCombination),
        Value::Scalar(s) => Ok(Value::Scalar(*s)),
        Value::Matrix(m) => match &m.0 {
            None => Ok(Value::Scalar(NodeValue(0))),
            Some(d) => match sum_k(d) {
                Ok(v) => Ok(Value::Scalar(NodeValue(v))),
                Err(e) => Err(e),
            },
        },
    }
}

} // verus!
