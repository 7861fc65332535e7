use vstd::prelude::*;
use crate::error::Error;
use crate::value::{SOp, sop_val, fmul, in_i64, bits_bin, bits_exp, exp_fix, LIM, SCALE, HALF};
use vstd::arithmetic::div_mod::{
    lemma_div_is_ordered, lemma_fundamental_div_mod_converse_div,
    lemma_fundamental_div_mod_converse_mod,
};

verus! {

/// Largest row or column count of a dense matrix, so that index
/// arithmetic and dot-product accumulators stay in machine range.
pub const DIM_MAX: usize = 32768;

/// The mathematical shape of a dense matrix: entries in row-major
/// order, as unbounded integers of fixed-point bits.
pub struct MatModel {
    pub rows: int,
    pub cols: int,
    pub elems: Seq<int>,
}

pub open spec fn in_lim(x: int) -> bool {
    -(LIM as int) <= x <= LIM as int
}

/// What every dense matrix guarantees: dimensions within `DIM_MAX`,
/// a full row-major entry vector, and every entry within `LIM`.
pub open spec fn dense_wf(m: MatModel) -> bool {
    &&& 0 <= m.rows <= DIM_MAX
    &&& 0 <= m.cols <= DIM_MAX
    &&& m.elems.len() == m.rows * m.cols
    &&& forall|i: int| 0 <= i < m.elems.len() ==> in_lim(#[trigger] m.elems[i])
}

/// The entry of `m` in row `i`, column `j`.
pub open spec fn ent(m: MatModel, i: int, j: int) -> int {
    m.elems[i * m.cols + j]
}

pub open spec fn shape_of(m: MatModel) -> (usize, usize) {
    (m.rows as usize, m.cols as usize)
}

/// Within bounded dimensions, a flat row-major index stays below the
/// entry count, which itself stays in machine range.
pub(crate) proof fn lemma_index_bound(i: int, j: int, r: int, c: int)
    requires
        0 <= i < r,
        0 <= j < c,
        r <= DIM_MAX,
        c <= DIM_MAX,
    ensures
        0 <= i * c,
        i * c + j < r * c,
        r * c <= 0x4000_0000,
{
    assert(0 <= i * c && i * c + j < r * c && r * c <= 0x4000_0000) by (nonlinear_arith)
        requires
            0 <= i < r,
            0 <= j < c,
            r <= 32768,
            c <= 32768,
    ;
}

pub open spec fn bits_seq(s: Seq<i64>) -> Seq<int> {
    Seq::new(s.len(), |i: int| s[i] as int)
}

/// A dense row-major matrix of fixed-point entries.
#[derive(Debug)]
pub struct Dense {
    rows: usize,
    cols: usize,
    elems: Vec<i64>,
}

impl View for Dense {
    type V = MatModel;

    closed spec fn view(&self) -> MatModel {
        MatModel { rows: self.rows as int, cols: self.cols as int, elems: bits_seq(self.elems@) }
    }
}

impl Dense {
    #[verifier::type_invariant]
    spec fn type_inv(self) -> bool {
        dense_wf(self@)
    }

    /// Builds a matrix from row-major entries. Returns `None` when
    /// the dimensions exceed `DIM_MAX`, the entry count does not
    /// match, or an entry lies outside `LIM`.
    pub fn new(rows: usize, cols: usize, elems: Vec<i64>) -> (r: Option<Dense>)
        ensures
            match r {
                Some(d) => {
                    &&& d@ == (MatModel {
                        rows: rows as int,
                        cols: cols as int,
                        elems: bits_seq(elems@),
                    })
                    &&& dense_wf(d@)
                },
                None => !dense_wf(
                    MatModel {
                        rows: rows as int,
                        cols: cols as int,
                        elems: bits_seq(elems@),
                    },
                ),
            },
    {
        if rows > DIM_MAX || cols > DIM_MAX {
            return None;
        }
        proof {
            assert((rows as int) * (cols as int) <= 0x4000_0000) by (nonlinear_arith)
                requires
                    0 <= (rows as int) <= 32768,
                    0 <= (cols as int) <= 32768,
            ;
        }
        let prod = match rows.checked_mul(cols) {
            Some(p) => p,
            None => {
                proof {
                    assert(false);
                }
                return None;
            },
        };
        if elems.len() != prod {
            return None;
        }
        let mut i: usize = 0;
        while i < elems.len()
            invariant
                i <= elems@.len(),
                forall|k: int| 0 <= k < i ==> in_lim((#[trigger] elems@[k]) as int),
            decreases elems@.len() - i,
        {
            let e = elems[i];
            if e < -LIM || e > LIM {
                proof {
                    assert(bits_seq(elems@)[i as int] == elems@[i as int] as int);
                    assert(!in_lim(bits_seq(elems@)[i as int]));
                }
                return None;
            }
            i = i + 1;
        }
        proof {
            assert forall|k: int| 0 <= k < bits_seq(elems@).len() implies in_lim(
                #[trigger] bits_seq(elems@)[k],
            ) by {
                assert(bits_seq(elems@)[k] == elems@[k] as int);
            }
        }
        Some(Dense { rows, cols, elems })
    }

    /// Number of rows.
    pub fn nrows(&self) -> (r: usize)
        ensures
            r == self@.rows,
    {
        self.rows
    }

    /// Number of columns.
    pub fn ncols(&self) -> (r: usize)
        ensures
            r == self@.cols,
    {
        self.cols
    }

    /// The entry in row `i`, column `j`.
    pub fn get(&self, i: usize, j: usize) -> (r: i64)
        requires
            0 <= i < self@.rows,
            0 <= j < self@.cols,
        ensures
            r == ent(self@, i as int, j as int),
    {
        proof {
            use_type_invariant(self);
            lemma_index_bound(i as int, j as int, self@.rows, self@.cols);
        }
        self.elems[i * self.cols + j]
    }

    /// The entries in row-major order.
    pub fn entries(&self) -> (r: &Vec<i64>)
        ensures
            bits_seq(r@) == self@.elems,
    {
        &self.elems
    }
}

impl Clone for Dense {
    fn clone(&self) -> (r: Self)
        ensures
            r@ == self@,
    {
        proof {
            use_type_invariant(self);
        }
        let mut v: Vec<i64> = Vec::new();
        let mut i: usize = 0;
        while i < self.elems.len()
            invariant
                i <= self.elems@.len(),
                v@ == self.elems@.subrange(0, i as int),
            decreases self.elems@.len() - i,
        {
            v.push(self.elems[i]);
            i = i + 1;
        }
        proof {
            assert(v@ =~= self.elems@);
        }
        let d = Dense { rows: self.rows, cols: self.cols, elems: v };
        proof {
            assert(d@.elems =~= self@.elems);
        }
        d
    }
}

/// The optional-matrix value: `None` is the structural zero matrix
/// of whatever shape the context requires, so no zero-filled buffer
/// is ever allocated for it.
#[derive(Debug)]
pub struct MatrixNode(pub Option<Dense>);

impl View for MatrixNode {
    type V = Option<MatModel>;

    open spec fn view(&self) -> Option<MatModel> {
        match self.0 {
            Some(d) => Some(d@),
            None => None,
        }
    }
}

/// The text that `format!` renders for a shape: a function of the
/// two dimensions alone.
pub uninterp spec fn shape_text_of(rows: usize, cols: usize) -> Seq<char>;

/// Relies on `format!`: renders a shape as ` [RxC] `, a deterministic
/// function of the two dimensions; the rendering of a pattern with
/// literal parts is never empty.
#[verifier::external_body]
fn shape_text(rows: usize, cols: usize) -> (s: String)
    ensures
        s@ == shape_text_of(rows, cols),
        s@.len() > 0,
{
    format!(" [{rows}x{cols}] ")
}

/// Wraps a dense matrix as a present (non-zero) matrix value.
pub fn mat(m: Dense) -> (r: MatrixNode)
    ensures
        r@ == Some(m@),
{
    MatrixNode(Some(m))
}

impl MatrixNode {
    /// The shape of the wrapped matrix, or `None` for the structural
    /// zero, whose shape is whatever the context requires.
    pub fn shape(&self) -> (r: Option<(usize, usize)>)
        ensures
            r == match self@ {
                Some(m) => Some(shape_of(m)),
                None => None::<(usize, usize)>,
            },
    {
        match &self.0 {
            Some(d) => Some((d.nrows(), d.ncols())),
            None => None,
        }
    }

    /// A short description for diagnostics, special-casing the zero
    /// expression: the structural zero prints as "Zero", a present
    /// matrix as its shape.
    pub fn describe(&self) -> (r: String)
        ensures
            self@ is None ==> r@ == "Zero"@,
            self@ matches Some(m) ==> r@ == shape_text_of(m.rows as usize, m.cols as usize),
            r@.len() > 0,
    {
        proof {
            reveal_strlit("Zero");
        }
        match &self.0 {
            None => "Zero".to_owned(),
            Some(d) => shape_text(d.nrows(), d.ncols()),
        }
    }

    /// Whether this is the structural zero matrix.
    pub fn is_zero(&self) -> (r: bool)
        ensures
            r == (self@ is None),
    {
        match &self.0 {
            Some(_) => false,
            None => true,
        }
    }
}

impl Clone for MatrixNode {
    fn clone(&self) -> (r: Self)
        ensures
            r@ == self@,
    {
        match &self.0 {
            Some(d) => MatrixNode(Some(d.clone())),
            None => MatrixNode(None),
        }
    }
}

impl PartialEq for MatrixNode {
    /// Two matrix values are equal when both are the structural zero,
    /// or both are present with the same shape and the same entries.
    fn eq(&self, other: &Self) -> (r: bool) {
        match (&self.0, &other.0) {
            (None, None) => true,
            (Some(a), Some(b)) => {
                proof {
                    use_type_invariant(a);
                    use_type_invariant(b);
                }
                if a.nrows() != b.nrows() || a.ncols() != b.ncols() {
                    return false;
                }
                let av = a.entries();
                let bv = b.entries();
                proof {
                    assert(av@.len() == a@.elems.len());
                    assert(bv@.len() == b@.elems.len());
                }
                let mut i: usize = 0;
                while i < av.len()
                    invariant
                        i <= av@.len(),
                        av@.len() == bv@.len(),
                        bits_seq(av@) == a@.elems,
                        bits_seq(bv@) == b@.elems,
                        self@ == Some(a@),
                        other@ == Some(b@),
                        forall|k: int| 0 <= k < i ==> av@[k] == bv@[k],
                    decreases av@.len() - i,
                {
                    if av[i] != bv[i] {
                        proof {
                            assert(a@.elems[i as int] == av@[i as int] as int);
                            assert(b@.elems[i as int] == bv@[i as int] as int);
                            assert(a@.elems[i as int] != b@.elems[i as int]);
                            assert(a@.elems != b@.elems);
                        }
                        return false;
                    }
                    i = i + 1;
                }
                proof {
                    assert(bits_seq(av@) =~= bits_seq(bv@));
                }
                true
            },
            _ => false,
        }
    }
}

impl vstd::std_specs::cmp::PartialEqSpecImpl for MatrixNode {
    open spec fn obeys_eq_spec() -> bool {
        true
    }

    open spec fn eq_spec(&self, other: &Self) -> bool {
        match (self@, other@) {
            (None, None) => true,
            (Some(a), Some(b)) => a.rows == b.rows && a.cols == b.cols && a.elems == b.elems,
            _ => false,
        }
    }
}

pub open spec fn res_dense(r: Result<Dense, Error>) -> Result<MatModel, Error> {
    match r {
        Ok(d) => Ok(d@),
        Err(e) => Err(e),
    }
}

pub open spec fn seq_has_zero(s: Seq<int>) -> bool {
    exists|i: int| 0 <= i < s.len() && #[trigger] s[i] == 0
}

/// An elementwise operation between two matrices of equal shape.
/// Division reports a zero divisor ahead of any overflow.
pub open spec fn mat_ew2(op: SOp, a: MatModel, b: MatModel) -> Result<MatModel, Error> {
    if a.rows != b.rows || a.cols != b.cols {
        Err(Error::ShapeMismatch { expected: shape_of(a), actual: shape_of(b) })
    } else if op is Div && seq_has_zero(b.elems) {
        Err(Error::DivisionByZero)
    } else if exists|i: int|
        0 <= i < a.elems.len() && !in_lim(sop_val(op, #[trigger] a.elems[i], b.elems[i])) {
        Err(Error::Overflow)
    } else {
        Ok(
            MatModel {
                rows: a.rows,
                cols: a.cols,
                elems: Seq::new(a.elems.len(), |i: int| sop_val(op, a.elems[i], b.elems[i])),
            },
        )
    }
}

pub open spec fn ews_val(op: SOp, m: MatModel, s: int, s_left: bool, i: int) -> int {
    if s_left {
        sop_val(op, s, m.elems[i])
    } else {
        sop_val(op, m.elems[i], s)
    }
}

/// An elementwise operation between a matrix and one scalar, which
/// stands on the left when `s_left` holds.
pub open spec fn mat_ews(op: SOp, m: MatModel, s: int, s_left: bool) -> Result<MatModel, Error> {
    if op is Div && !s_left && s == 0 {
        Err(Error::DivisionByZero)
    } else if op is Div && s_left && seq_has_zero(m.elems) {
        Err(Error::DivisionByZero)
    } else if exists|i: int| 0 <= i < m.elems.len() && !in_lim(#[trigger] ews_val(op, m, s, s_left, i)) {
        Err(Error::Overflow)
    } else {
        Ok(
            MatModel {
                rows: m.rows,
                cols: m.cols,
                elems: Seq::new(m.elems.len(), |i: int| ews_val(op, m, s, s_left, i)),
            },
        )
    }
}

/// The first `n` summands of the dot product behind entry `(i, j)`
/// of a matrix product.
pub open spec fn dot_prefix(a: MatModel, b: MatModel, i: int, j: int, n: nat) -> int
    decreases n,
{
    if n == 0 {
        0
    } else {
        dot_prefix(a, b, i, j, (n - 1) as nat) + fmul(ent(a, i, n - 1), ent(b, n - 1, j))
    }
}

pub open spec fn dot(a: MatModel, b: MatModel, i: int, j: int) -> int {
    dot_prefix(a, b, i, j, a.cols as nat)
}

/// The matrix product. The inner dimensions must agree; every entry
/// of the result must stay within `LIM`.
pub open spec fn mat_mul(a: MatModel, b: MatModel) -> Result<MatModel, Error> {
    if a.cols != b.rows {
        Err(Error::ShapeMismatch { expected: shape_of(a), actual: shape_of(b) })
    } else if exists|n: int| 0 <= n < a.rows * b.cols && !in_lim(#[trigger] dot(a, b, n / b.cols, n % b.cols)) {
        Err(Error::Overflow)
    } else {
        Ok(
            MatModel {
                rows: a.rows,
                cols: b.cols,
                elems: Seq::new((a.rows * b.cols) as nat, |n: int| dot(a, b, n / b.cols, n % b.cols)),
            },
        )
    }
}

/// The transpose: entry `(i, j)` of the result is entry `(j, i)` of
/// the argument.
pub open spec fn mat_transpose(a: MatModel) -> MatModel {
    MatModel {
        rows: a.cols,
        cols: a.rows,
        elems: Seq::new((a.cols * a.rows) as nat, |n: int| ent(a, n % a.rows, n / a.rows)),
    }
}

/// Entry `(i, j)` of the transpose is entry `(j, i)` of the
/// argument, within the argument's shape.
pub proof fn lemma_transpose_ent(a: MatModel, i: int, j: int)
    requires
        dense_wf(a),
        0 <= i < a.cols,
        0 <= j < a.rows,
    ensures
        ent(mat_transpose(a), i, j) == ent(a, j, i),
{
    let n0 = i * a.rows + j;
    lemma_entry_index(i, j, a.rows);
    lemma_index_bound(i, j, a.cols, a.rows);
    assert(a.cols * a.rows == a.rows * a.cols) by (nonlinear_arith);
    assert(ent(mat_transpose(a), i, j) == mat_transpose(a).elems[n0]);
    assert(mat_transpose(a).elems[n0] == ent(a, n0 % a.rows, n0 / a.rows));
}

/// The elementwise fixed-point exponential.
pub open spec fn mat_exp(a: MatModel) -> Result<MatModel, Error> {
    if exists|i: int| 0 <= i < a.elems.len() && !in_lim(exp_fix(#[trigger] a.elems[i])) {
        Err(Error::Overflow)
    } else {
        Ok(
            MatModel {
                rows: a.rows,
                cols: a.cols,
                elems: Seq::new(a.elems.len(), |i: int| exp_fix(a.elems[i])),
            },
        )
    }
}

pub open spec fn sum_prefix(m: MatModel, n: nat) -> int
    decreases n,
{
    if n == 0 {
        0
    } else {
        sum_prefix(m, (n - 1) as nat) + m.elems[n - 1]
    }
}

/// The sum of all entries, as one scalar.
pub open spec fn mat_sum(m: MatModel) -> Result<int, Error> {
    let s = sum_prefix(m, m.elems.len());
    if in_i64(s) {
        Ok(s)
    } else {
        Err(Error::Overflow)
    }
}

fn has_zero(v: &Vec<i64>) -> (r: bool)
    ensures
        r == seq_has_zero(bits_seq(v@)),
{
    let mut i: usize = 0;
    while i < v.len()
        invariant
            i <= v@.len(),
            forall|k: int| 0 <= k < i ==> #[trigger] bits_seq(v@)[k] != 0,
        decreases v@.len() - i,
    {
        if v[i] == 0 {
            proof {
                assert(bits_seq(v@)[i as int] == 0);
            }
            return true;
        }
        proof {
            assert(bits_seq(v@)[i as int] == v@[i as int] as int);
        }
        i = i + 1;
    }
    false
}

/// Elementwise kernel for two matrices.
pub(crate) fn ew2_k(op: SOp, a: &Dense, b: &Dense) -> (res: Result<Dense, Error>)
    ensures
        res_dense(res) == mat_ew2(op, a@, b@),
{
    proof {
        use_type_invariant(a);
        use_type_invariant(b);
    }
    if a.rows != b.rows || a.cols != b.cols {
        return Err(Error::ShapeMismatch { expected: (a.rows, a.cols), actual: (b.rows, b.cols) });
    }
    let is_div = match op {
        SOp::Div => true,
        _ => false,
    };
    if is_div {
        if has_zero(&b.elems) {
            return Err(Error::DivisionByZero);
        }
    }
    let len = a.elems.len();
    proof {
        assert(a@.elems.len() == a@.rows * a@.cols);
        assert(b@.elems.len() == b@.rows * b@.cols);
    }
    let mut out: Vec<i64> = Vec::new();
    let mut idx: usize = 0;
    while idx < len
        invariant
            idx <= len,
            len == a.elems@.len(),
            len == b.elems@.len(),
            dense_wf(a@),
            dense_wf(b@),
            a@.rows == b@.rows,
            a@.cols == b@.cols,
            op is Div ==> !seq_has_zero(b@.elems),
            out@.len() == idx,
            forall|k: int| 0 <= k < idx ==> in_lim(sop_val(op, #[trigger] a@.elems[k], b@.elems[k])),
            forall|k: int|
                0 <= k < idx ==> #[trigger] (out@[k] as int) == sop_val(op, a@.elems[k], b@.elems[k]),
        decreases len - idx,
    {
        proof {
            assert(a@.elems[idx as int] == a.elems@[idx as int] as int);
            assert(b@.elems[idx as int] == b.elems@[idx as int] as int);
            if op is Div {
                assert(b@.elems[idx as int] != 0);
            }
        }
        match bits_bin(op, a.elems[idx], b.elems[idx]) {
            Ok(v) => {
                if v < -LIM || v > LIM {
                    proof {
                        assert(!in_lim(sop_val(op, a@.elems[idx as int], b@.elems[idx as int])));
                    }
                    return Err(Error::Overflow);
                }
                out.push(v);
            },
            Err(_) => {
                proof {
                    assert(!in_lim(sop_val(op, a@.elems[idx as int], b@.elems[idx as int])));
                }
                return Err(Error::Overflow);
            },
        }
        idx = idx + 1;
    }
    let d = Dense { rows: a.rows, cols: a.cols, elems: out };
    proof {
        assert(d@.elems =~= Seq::new(a@.elems.len(), |i: int| sop_val(op, a@.elems[i], b@.elems[i])));
    }
    Ok(d)
}

/// Elementwise kernel for a matrix and one scalar.
pub(crate) fn ews_k(op: SOp, m: &Dense, s: i64, s_left: bool) -> (res: Result<Dense, Error>)
    ensures
        res_dense(res) == mat_ews(op, m@, s as int, s_left),
{
    proof {
        use_type_invariant(m);
    }
    let is_div = match op {
        SOp::Div => true,
        _ => false,
    };
    if is_div && !s_left && s == 0 {
        return Err(Error::DivisionByZero);
    }
    if is_div && s_left {
        if has_zero(&m.elems) {
            return Err(Error::DivisionByZero);
        }
    }
    let len = m.elems.len();
    let mut out: Vec<i64> = Vec::new();
    let mut idx: usize = 0;
    while idx < len
        invariant
            idx <= len,
            len == m.elems@.len(),
            dense_wf(m@),
            op is Div && !s_left ==> s != 0,
            op is Div && s_left ==> !seq_has_zero(m@.elems),
            out@.len() == idx,
            forall|k: int| 0 <= k < idx ==> in_lim(#[trigger] ews_val(op, m@, s as int, s_left, k)),
            forall|k: int|
                0 <= k < idx ==> #[trigger] (out@[k] as int) == ews_val(op, m@, s as int, s_left, k),
        decreases len - idx,
    {
        proof {
            assert(m@.elems[idx as int] == m.elems@[idx as int] as int);
            if op is Div && s_left {
                assert(m@.elems[idx as int] != 0);
            }
        }
        let e = m.elems[idx];
        let r = if s_left {
            bits_bin(op, s, e)
        } else {
            bits_bin(op, e, s)
        };
        match r {
            Ok(v) => {
                if v < -LIM || v > LIM {
                    proof {
                        assert(!in_lim(ews_val(op, m@, s as int, s_left, idx as int)));
                    }
                    return Err(Error::Overflow);
                }
                out.push(v);
            },
            Err(_) => {
                proof {
                    assert(!in_lim(ews_val(op, m@, s as int, s_left, idx as int)));
                }
                return Err(Error::Overflow);
            },
        }
        idx = idx + 1;
    }
    let d = Dense { rows: m.rows, cols: m.cols, elems: out };
    proof {
        assert(d@.elems =~= Seq::new(m@.elems.len(), |i: int| ews_val(op, m@, s as int, s_left, i)));
    }
    Ok(d)
}

proof fn lemma_fmul_lim(x: int, y: int)
    requires
        in_lim(x),
        in_lim(y),
    ensures
        -0x400_0000_0000_0000_0000_0000int <= fmul(x, y) <= 0x400_0000_0000_0000_0000_0000int,
{
    let p = x * y;
    crate::value::lemma_mul_bounds(x, y, 0x1000_0000_0000_0000int);
    assert(0x1000_0000_0000_0000int * 0x1000_0000_0000_0000int
        == 0x100_0000_0000_0000_0000_0000_0000_0000int) by (nonlinear_arith);
    lemma_div_is_ordered(p, 0x100_0000_0000_0000_0000_0000_0000_0000int, SCALE as int);
    lemma_div_is_ordered(-0x100_0000_0000_0000_0000_0000_0000_0000int, p, SCALE as int);
    lemma_fundamental_div_mod_converse_div(
        0x100_0000_0000_0000_0000_0000_0000_0000int,
        SCALE as int,
        0x400_0000_0000_0000_0000_0000int,
        0,
    );
    lemma_fundamental_div_mod_converse_div(
        -0x100_0000_0000_0000_0000_0000_0000_0000int,
        SCALE as int,
        -0x400_0000_0000_0000_0000_0000int,
        0,
    );
}

/// The matrix-product kernel: dot products accumulated in 128 bits.
pub(crate) fn matmul_k(a: &Dense, b: &Dense) -> (res: Result<Dense, Error>)
    ensures
        res_dense(res) == mat_mul(a@, b@),
{
    proof {
        use_type_invariant(a);
        use_type_invariant(b);
    }
    if a.cols != b.rows {
        return Err(Error::ShapeMismatch { expected: (a.rows, a.cols), actual: (b.rows, b.cols) });
    }
    let mut out: Vec<i64> = Vec::new();
    let mut i: usize = 0;
    while i < a.rows
        invariant
            0 <= i <= a@.rows,
            dense_wf(a@),
            dense_wf(b@),
            a@.cols == b@.rows,
            out@.len() == i * b@.cols,
            forall|n: int|
                0 <= n < out@.len() ==> in_lim(#[trigger] dot(a@, b@, n / b@.cols, n % b@.cols))
                    && out@[n] as int == dot(a@, b@, n / b@.cols, n % b@.cols),
        decreases a@.rows - i,
    {
        let mut j: usize = 0;
        proof {
            assert((i + 1) * b@.cols == i * b@.cols + b@.cols) by (nonlinear_arith);
        }
        while j < b.cols
            invariant
                0 <= i < a@.rows,
                0 <= j <= b@.cols,
                dense_wf(a@),
                dense_wf(b@),
                a@.cols == b@.rows,
                out@.len() == i * b@.cols + j,
                forall|n: int|
                    0 <= n < out@.len() ==> in_lim(#[trigger] dot(a@, b@, n / b@.cols, n % b@.cols))
                        && out@[n] as int == dot(a@, b@, n / b@.cols, n % b@.cols),
            decreases b@.cols - j,
        {
            let mut acc: i128 = 0;
            let mut k: usize = 0;
            while k < a.cols
                invariant
                    0 <= k <= a@.cols,
                    0 <= i < a@.rows,
                    0 <= j < b@.cols,
                    dense_wf(a@),
                    dense_wf(b@),
                    a@.cols == b@.rows,
                    acc == dot_prefix(a@, b@, i as int, j as int, k as nat),
                    -((k as int) * 0x400_0000_0000_0000_0000_0000int) <= acc <= (k as int)
                        * 0x400_0000_0000_0000_0000_0000int,
                decreases a@.cols - k,
            {
                proof {
                    lemma_index_bound(i as int, k as int, a@.rows, a@.cols);
                    lemma_index_bound(k as int, j as int, b@.rows, b@.cols);
                }
                let x = a.elems[i * a.cols + k];
                let y = b.elems[k * b.cols + j];
                proof {
                    assert(x as int == a@.elems[(i as int) * a@.cols + k]);
                    assert(y as int == b@.elems[(k as int) * b@.cols + j]);
                    assert(in_lim(x as int));
                    assert(in_lim(y as int));
                    lemma_mul_bounds_i64(x as int, y as int);
                }
                let p: i128 = (x as i128) * (y as i128) + (HALF as i128);
                let q: i128 = match p.checked_div_euclid(SCALE as i128) {
                    Some(q) => q,
                    None => {
                        proof {
                            lemma_fmul_lim(x as int, y as int);
                            assert(false);
                        }
                        0
                    },
                };
                proof {
                    lemma_fmul_lim(x as int, y as int);
                    assert(q == fmul(x as int, y as int));
                    assert(ent(a@, i as int, k as int) == x as int);
                    assert(ent(b@, k as int, j as int) == y as int);
                    assert(dot_prefix(a@, b@, i as int, j as int, (k + 1) as nat) == acc + q);
                    assert((k as int + 1) * 0x400_0000_0000_0000_0000_0000int == (k as int)
                        * 0x400_0000_0000_0000_0000_0000int
                        + 0x400_0000_0000_0000_0000_0000int) by (nonlinear_arith);
                }
                acc = acc + q;
                k = k + 1;
            }
            proof {
                lemma_entry_index(i as int, j as int, b@.cols);
                lemma_index_bound(i as int, j as int, a@.rows, b@.cols);
                assert(acc == dot(a@, b@, i as int, j as int));
                assert(dot(
                    a@,
                    b@,
                    ((i as int) * b@.cols + j) / b@.cols,
                    ((i as int) * b@.cols + j) % b@.cols,
                ) == dot(a@, b@, i as int, j as int));
            }
            if acc < -(LIM as i128) || acc > LIM as i128 {
                return Err(Error::Overflow);
            }
            out.push(acc as i64);
            j = j + 1;
        }
        i = i + 1;
    }
    proof {
        assert(out@.len() == a@.rows * b@.cols);
        assert forall|n: int| 0 <= n < a@.rows * b@.cols implies in_lim(
            #[trigger] dot(a@, b@, n / b@.cols, n % b@.cols),
        ) by {}
    }
    proof {
        assert forall|n: int| 0 <= n < bits_seq(out@).len() implies in_lim(
            #[trigger] bits_seq(out@)[n],
        ) by {
            assert(in_lim(dot(a@, b@, n / b@.cols, n % b@.cols)));
            assert(out@[n] as int == dot(a@, b@, n / b@.cols, n % b@.cols));
            assert(bits_seq(out@)[n] == out@[n] as int);
        }
    }
    let d = Dense { rows: a.rows, cols: b.cols, elems: out };
    proof {
        assert(d@.elems =~= Seq::new(
            (a@.rows * b@.cols) as nat,
            |n: int| dot(a@, b@, n / b@.cols, n % b@.cols),
        ));
    }
    Ok(d)
}

proof fn lemma_mul_bounds_i64(x: int, y: int)
    requires
        i64::MIN <= x <= i64::MAX,
        i64::MIN <= y <= i64::MAX,
    ensures
        -0x4000_0000_0000_0000_0000_0000_0000_0000 <= x * y
            <= 0x4000_0000_0000_0000_0000_0000_0000_0000,
{
    assert(-0x4000_0000_0000_0000_0000_0000_0000_0000 <= x * y
        <= 0x4000_0000_0000_0000_0000_0000_0000_0000) by (nonlinear_arith)
        requires
            -0x8000_0000_0000_0000 <= x <= 0x8000_0000_0000_0000,
            -0x8000_0000_0000_0000 <= y <= 0x8000_0000_0000_0000,
    ;
}

/// Under `0 <= j < c`, the flat index `i * c + j` decomposes back
/// into row `i` and column `j`.
pub(crate) proof fn lemma_entry_index(i: int, j: int, c: int)
    requires
        0 <= i,
        0 <= j < c,
    ensures
        (i * c + j) / c == i,
        (i * c + j) % c == j,
        0 <= i * c + j,
        (i + 1) * c == i * c + c,
{
    lemma_fundamental_div_mod_converse_div(i * c + j, c, i, j);
    lemma_fundamental_div_mod_converse_mod(i * c + j, c, i, j);
    assert(0 <= i * c) by (nonlinear_arith)
        requires
            0 <= i,
            0 <= c,
    ;
    assert((i + 1) * c == i * c + c) by (nonlinear_arith);
}

/// The transpose kernel.
pub(crate) fn transpose_k(a: &Dense) -> (res: Dense)
    ensures
        res@ == mat_transpose(a@),
{
    proof {
        use_type_invariant(a);
    }
    let mut out: Vec<i64> = Vec::new();
    let mut i: usize = 0;
    while i < a.cols
        invariant
            0 <= i <= a@.cols,
            dense_wf(a@),
            out@.len() == i * a@.rows,
            forall|n: int|
                0 <= n < out@.len() ==> #[trigger] (out@[n] as int) == ent(
                    a@,
                    n % a@.rows,
                    n / a@.rows,
                ) && in_lim(out@[n] as int),
        decreases a@.cols - i,
    {
        let mut j: usize = 0;
        proof {
            assert((i + 1) * a@.rows == i * a@.rows + a@.rows) by (nonlinear_arith);
        }
        while j < a.rows
            invariant
                0 <= i < a@.cols,
                0 <= j <= a@.rows,
                dense_wf(a@),
                out@.len() == i * a@.rows + j,
                forall|n: int|
                    0 <= n < out@.len() ==> #[trigger] (out@[n] as int) == ent(
                        a@,
                        n % a@.rows,
                        n / a@.rows,
                    ) && in_lim(out@[n] as int),
            decreases a@.rows - j,
        {
            proof {
                lemma_index_bound(j as int, i as int, a@.rows, a@.cols);
                lemma_entry_index(i as int, j as int, a@.rows);
                assert(a@.elems[(j as int) * a@.cols + i] == a.elems@[(j as int) * a@.cols + i]
                    as int);
                assert(ent(a@, ((i as int) * a@.rows + j) % a@.rows, ((i as int) * a@.rows + j)
                    / a@.rows) == a@.elems[(j as int) * a@.cols + i]);
            }
            out.push(a.elems[j * a.cols + i]);
            j = j + 1;
        }
        i = i + 1;
    }
    proof {
        assert forall|n: int| 0 <= n < bits_seq(out@).len() implies in_lim(
            #[trigger] bits_seq(out@)[n],
        ) by {
            assert(bits_seq(out@)[n] == out@[n] as int);
        }
        assert(a@.cols * a@.rows == a@.rows * a@.cols) by (nonlinear_arith);
    }
    let d = Dense { rows: a.cols, cols: a.rows, elems: out };
    proof {
        assert(d@.elems =~= Seq::new(
            (a@.cols * a@.rows) as nat,
            |n: int| ent(a@, n % a@.rows, n / a@.rows),
        ));
    }
    d
}

/// The elementwise exponential kernel.
pub(crate) fn exp_k(a: &Dense) -> (res: Result<Dense, Error>)
    ensures
        res_dense(res) == mat_exp(a@),
{
    proof {
        use_type_invariant(a);
    }
    let len = a.elems.len();
    let mut out: Vec<i64> = Vec::new();
    let mut idx: usize = 0;
    while idx < len
        invariant
            idx <= len,
            len == a.elems@.len(),
            dense_wf(a@),
            out@.len() == idx,
            forall|k: int| 0 <= k < idx ==> in_lim(exp_fix(#[trigger] a@.elems[k])),
            forall|k: int| 0 <= k < idx ==> #[trigger] (out@[k] as int) == exp_fix(a@.elems[k]),
        decreases len - idx,
    {
        proof {
            assert(a@.elems[idx as int] == a.elems@[idx as int] as int);
        }
        let v = bits_exp(a.elems[idx]);
        if v > LIM {
            proof {
                assert(!in_lim(exp_fix(a@.elems[idx as int])));
            }
            return Err(Error::Overflow);
        }
        out.push(v);
        idx = idx + 1;
    }
    let d = Dense { rows: a.rows, cols: a.cols, elems: out };
    proof {
        assert(d@.elems =~= Seq::new(a@.elems.len(), |i: int| exp_fix(a@.elems[i])));
    }
    Ok(d)
}

/// The full-reduction kernel: the sum of all entries.
pub(crate) fn sum_k(a: &Dense) -> (res: Result<i64, Error>)
    ensures
        match res {
            Ok(v) => mat_sum(a@) == Ok::<int, Error>(v as int),
            Err(e) => mat_sum(a@) == Err::<int, Error>(e),
        },
{
    proof {
        use_type_invariant(a);
    }
    let len = a.elems.len();
    let mut acc: i128 = 0;
    let mut idx: usize = 0;
    while idx < len
        invariant
            idx <= len,
            len == a.elems@.len(),
            dense_wf(a@),
            acc == sum_prefix(a@, idx as nat),
            -((idx as int) * (LIM as int)) <= acc <= (idx as int) * (LIM as int),
        decreases len - idx,
    {
        proof {
            assert((idx as int + 1) * (LIM as int) == (idx as int) * (LIM as int) + LIM)
                by (nonlinear_arith);
            assert(a@.elems[idx as int] == a.elems@[idx as int] as int);
            assert(in_lim(a@.elems[idx as int]));
        }
        acc = acc + (a.elems[idx] as i128);
        idx = idx + 1;
    }
    if acc < i64::MIN as i128 || acc > i64::MAX as i128 {
        Err(Error::Overflow)
    } else {
        Ok(acc as i64)
    }
}

} // verus!
