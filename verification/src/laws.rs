use vstd::prelude::*;
use crate::error::Error;
use crate::mat::{
    MatModel, dense_wf, ent, mat_mul, mat_transpose, dot, dot_prefix, in_lim,
    lemma_entry_index, lemma_index_bound, lemma_transpose_ent,
};
use crate::term::{TermModel, eval_term, deriv_term, term_is_zero};
use crate::value::{Atom, ValueModel, in_i64, lemma_exp_fix_range};

verus! {

/// Whether the name `k` is absent from `t`: no symbol at a
/// differentiable position binds it. A symbol's inner expression is
/// not scanned, because differentiation stops at the symbol.
pub open spec fn name_absent(t: TermModel, k: Seq<char>) -> bool
    decreases t,
{
    match t {
        TermModel::Value(_) => true,
        TermModel::Anonymous => true,
        TermModel::Symbol(name, _) => name != k,
        TermModel::Add(l, r) => name_absent(*l, k) && name_absent(*r, k),
        TermModel::Sub(l, r) => name_absent(*l, k) && name_absent(*r, k),
        TermModel::Neg(e) => name_absent(*e, k),
        TermModel::Mul(l, r) => name_absent(*l, k) && name_absent(*r, k),
        TermModel::ElemMul(l, r) => name_absent(*l, k) && name_absent(*r, k),
        TermModel::Div(l, r) => name_absent(*l, k) && name_absent(*r, k),
        TermModel::Transpose(e) => name_absent(*e, k),
        TermModel::Exp(e) => name_absent(*e, k),
        TermModel::Sum(e) => name_absent(*e, k),
    }
}

/// An evaluated value that is exactly an additive identity produced
/// by the zero short-circuit: the zero atom, the scalar zero, or the
/// structural zero matrix — never a materialized zero-filled buffer.
pub open spec fn strictly_zero(v: ValueModel) -> bool {
    match v {
        ValueModel::Atom(a) => a is Zero,
        ValueModel::Scalar(s) => s == 0,
        ValueModel::Matrix(m) => m is None,
    }
}

/// Zero short-circuit idempotence: differentiating with respect to a
/// name absent from the expression yields a node that reports itself
/// zero by structure alone, and whose evaluation — when it succeeds —
/// is the additive identity of the output kind, reached without any
/// shape-dependent computation (matrix results stay structurally
/// absent, so no shape is ever consulted).
pub proof fn lemma_zero_short_circuit(t: TermModel, k: Seq<char>, d: TermModel)
    requires
        name_absent(t, k),
    ensures
        term_is_zero(deriv_term(t, k, d)),
        eval_term(deriv_term(t, k, d)) matches Ok(v) ==> strictly_zero(v),
    decreases t,
{
    reveal_with_fuel(deriv_term, 2);
    reveal_with_fuel(eval_term, 4);
    reveal_with_fuel(term_is_zero, 4);
    match t {
        TermModel::Value(_) => {},
        TermModel::Anonymous => {},
        TermModel::Symbol(name, _) => {},
        TermModel::Add(l, r) => {
            lemma_zero_short_circuit(*l, k, d);
            lemma_zero_short_circuit(*r, k, d);
        },
        TermModel::Sub(l, r) => {
            lemma_zero_short_circuit(*l, k, d);
            lemma_zero_short_circuit(*r, k, d);
        },
        TermModel::Neg(e) => {
            lemma_zero_short_circuit(*e, k, TermModel::Neg(Box::new(d)));
        },
        TermModel::Mul(l, r) => {
            lemma_zero_short_circuit(
                *l,
                k,
                TermModel::Mul(Box::new(d), Box::new(TermModel::Transpose(r))),
            );
            lemma_zero_short_circuit(
                *r,
                k,
                TermModel::Mul(Box::new(TermModel::Transpose(l)), Box::new(d)),
            );
        },
        TermModel::ElemMul(l, r) => {
            lemma_zero_short_circuit(*l, k, TermModel::ElemMul(r, Box::new(d)));
            lemma_zero_short_circuit(*r, k, TermModel::ElemMul(l, Box::new(d)));
        },
        TermModel::Div(l, r) => {
            lemma_zero_short_circuit(*l, k, TermModel::Div(Box::new(d), r));
            lemma_zero_short_circuit(
                *r,
                k,
                TermModel::ElemMul(
                    Box::new(TermModel::Div(l, Box::new(TermModel::ElemMul(r, r)))),
                    Box::new(d),
                ),
            );
        },
        TermModel::Transpose(e) => {
            lemma_zero_short_circuit(*e, k, d);
        },
        TermModel::Exp(e) => {
            lemma_zero_short_circuit(
                *e,
                k,
                TermModel::ElemMul(Box::new(d), Box::new(TermModel::Exp(e))),
            );
        },
        TermModel::Sum(e) => {
            lemma_zero_short_circuit(*e, k, d);
        },
    }
}

/// A value whose scalar, if it is one, fits the machine word.
pub open spec fn scalar_ok(v: ValueModel) -> bool {
    v matches ValueModel::Scalar(s) ==> in_i64(s)
}

/// Whether every scalar leaf of the expression fits the machine
/// word. Expressions built from executable values always do.
pub open spec fn term_scalars_in_range(t: TermModel) -> bool
    decreases t,
{
    match t {
        TermModel::Value(v) => scalar_ok(v),
        TermModel::Anonymous => true,
        TermModel::Symbol(_, n) => term_scalars_in_range(*n),
        TermModel::Add(l, r) => term_scalars_in_range(*l) && term_scalars_in_range(*r),
        TermModel::Sub(l, r) => term_scalars_in_range(*l) && term_scalars_in_range(*r),
        TermModel::Neg(e) => term_scalars_in_range(*e),
        TermModel::Mul(l, r) => term_scalars_in_range(*l) && term_scalars_in_range(*r),
        TermModel::ElemMul(l, r) => term_scalars_in_range(*l) && term_scalars_in_range(*r),
        TermModel::Div(l, r) => term_scalars_in_range(*l) && term_scalars_in_range(*r),
        TermModel::Transpose(e) => term_scalars_in_range(*e),
        TermModel::Exp(e) => term_scalars_in_range(*e),
        TermModel::Sum(e) => term_scalars_in_range(*e),
    }
}

/// Evaluation never produces a scalar outside the machine word when
/// no scalar leaf lies outside it: every operator either checks its
/// scalar result or passes one of its operands through.
pub proof fn lemma_eval_scalar_ok(t: TermModel)
    requires
        term_scalars_in_range(t),
    ensures
        eval_term(t) matches Ok(v) ==> scalar_ok(v),
    decreases t,
{
    match t {
        TermModel::Value(_) => {},
        TermModel::Anonymous => {},
        TermModel::Symbol(_, n) => {
            lemma_eval_scalar_ok(*n);
        },
        TermModel::Add(l, r) => {
            lemma_eval_scalar_ok(*l);
            lemma_eval_scalar_ok(*r);
        },
        TermModel::Sub(l, r) => {
            lemma_eval_scalar_ok(*l);
            lemma_eval_scalar_ok(*r);
        },
        TermModel::Neg(e) => {
            lemma_eval_scalar_ok(*e);
        },
        TermModel::Mul(l, r) => {
            lemma_eval_scalar_ok(*l);
            lemma_eval_scalar_ok(*r);
        },
        TermModel::ElemMul(l, r) => {
            lemma_eval_scalar_ok(*l);
            lemma_eval_scalar_ok(*r);
        },
        TermModel::Div(l, r) => {
            lemma_eval_scalar_ok(*l);
            lemma_eval_scalar_ok(*r);
        },
        TermModel::Transpose(e) => {
            lemma_eval_scalar_ok(*e);
        },
        TermModel::Exp(e) => {
            lemma_eval_scalar_ok(*e);
            match eval_term(*e) {
                Ok(ValueModel::Scalar(s)) => {
                    lemma_exp_fix_range(s);
                },
                _ => {},
            }
        },
        TermModel::Sum(e) => {
            lemma_eval_scalar_ok(*e);
        },
    }
}

/// The sum rule: for `f = a + b` over two distinctly named symbols,
/// the derivative with respect to either name evaluates exactly as
/// the seed does — same value on success, same error on failure —
/// whatever the seed is. (Two symbols sharing one name would both
/// answer to it, so the names must differ.)
pub proof fn lemma_sum_rule(
    na: Seq<char>,
    nb: Seq<char>,
    fa: TermModel,
    fb: TermModel,
    seed: TermModel,
)
    requires
        na != nb,
        term_scalars_in_range(seed),
    ensures
        ({
            let f = TermModel::Add(
                Box::new(TermModel::Symbol(na, Box::new(fa))),
                Box::new(TermModel::Symbol(nb, Box::new(fb))),
            );
            &&& eval_term(deriv_term(f, na, seed)) == eval_term(seed)
            &&& eval_term(deriv_term(f, nb, seed)) == eval_term(seed)
        }),
{
    reveal_with_fuel(deriv_term, 3);
    lemma_eval_scalar_ok(seed);
    lemma_identity_absorb(seed);
}

/// Multiplying a value by the one atom keeps it; multiplying by the
/// zero atom gives a zero of the same kind, which the sum then
/// absorbs, whichever side each product stands on.
proof fn lemma_identity_absorb(seed: TermModel)
    requires
        eval_term(seed) matches Ok(v) ==> scalar_ok(v),
    ensures
        ({
            let one_s = TermModel::Mul(
                Box::new(TermModel::Value(ValueModel::Atom(Atom::One))),
                Box::new(seed),
            );
            let zero_s = TermModel::Mul(
                Box::new(TermModel::Value(ValueModel::Atom(Atom::Zero))),
                Box::new(seed),
            );
            &&& eval_term(TermModel::Add(Box::new(one_s), Box::new(zero_s))) == eval_term(seed)
            &&& eval_term(TermModel::Add(Box::new(zero_s), Box::new(one_s))) == eval_term(seed)
        }),
{
    reveal_with_fuel(eval_term, 4);
}

/// The matrix product shape law: for a weight matrix of shape
/// `m x n`, an input of shape `n x 1` and a seed of shape `m x 1`,
/// the seeded derivative of `W . x` with respect to the weights
/// evaluates to a matrix of shape `m x n`, and with respect to the
/// input to one of shape `n x 1` — or fails with `Overflow` alone;
/// no shape ever mismatches, whatever the entries hold.
pub proof fn lemma_matrix_shape(
    nw: Seq<char>,
    nx: Seq<char>,
    w: MatModel,
    x: MatModel,
    s: MatModel,
    m: int,
    n: int,
)
    requires
        nw != nx,
        w.rows == m && w.cols == n,
        x.rows == n && x.cols == 1,
        s.rows == m && s.cols == 1,
    ensures
        ({
            let f = TermModel::Mul(
                Box::new(
                    TermModel::Symbol(nw, Box::new(TermModel::Value(ValueModel::Matrix(Some(w))))),
                ),
                Box::new(
                    TermModel::Symbol(nx, Box::new(TermModel::Value(ValueModel::Matrix(Some(x))))),
                ),
            );
            let seed = TermModel::Value(ValueModel::Matrix(Some(s)));
            &&& (match eval_term(deriv_term(f, nw, seed)) {
                Ok(v) => v matches ValueModel::Matrix(om) && om matches Some(d) && d.rows == m
                    && d.cols == n,
                Err(e) => e is Overflow,
            })
            &&& (match eval_term(deriv_term(f, nx, seed)) {
                Ok(v) => v matches ValueModel::Matrix(om) && om matches Some(d) && d.rows == n
                    && d.cols == 1,
                Err(e) => e is Overflow,
            })
        }),
{
    reveal_with_fuel(deriv_term, 3);
    reveal_with_fuel(eval_term, 8);
    let wsym = TermModel::Symbol(nw, Box::new(TermModel::Value(ValueModel::Matrix(Some(w)))));
    let xsym = TermModel::Symbol(nx, Box::new(TermModel::Value(ValueModel::Matrix(Some(x)))));
    let f = TermModel::Mul(Box::new(wsym), Box::new(xsym));
    let seed = TermModel::Value(ValueModel::Matrix(Some(s)));
    let seed_l = TermModel::Mul(Box::new(seed), Box::new(TermModel::Transpose(Box::new(xsym))));
    let seed_r = TermModel::Mul(Box::new(TermModel::Transpose(Box::new(wsym))), Box::new(seed));
    let tx = mat_transpose(x);
    let tw = mat_transpose(w);
    assert(eval_term(seed_l) == crate::value::mul_model(
        ValueModel::Matrix(Some(s)),
        ValueModel::Matrix(Some(tx)),
    ));
    assert(eval_term(seed_r) == crate::value::mul_model(
        ValueModel::Matrix(Some(tw)),
        ValueModel::Matrix(Some(s)),
    ));
    assert(tx.rows == 1 && tx.cols == n);
    assert(tw.rows == n && tw.cols == m);
    let dw = deriv_term(f, nw, seed);
    assert(dw == TermModel::Add(
        Box::new(
            TermModel::Mul(
                Box::new(TermModel::Value(ValueModel::Atom(Atom::One))),
                Box::new(seed_l),
            ),
        ),
        Box::new(
            TermModel::Mul(
                Box::new(TermModel::Value(ValueModel::Atom(Atom::Zero))),
                Box::new(seed_r),
            ),
        ),
    ));
    let dx = deriv_term(f, nx, seed);
    assert(dx == TermModel::Add(
        Box::new(
            TermModel::Mul(
                Box::new(TermModel::Value(ValueModel::Atom(Atom::Zero))),
                Box::new(seed_l),
            ),
        ),
        Box::new(
            TermModel::Mul(
                Box::new(TermModel::Value(ValueModel::Atom(Atom::One))),
                Box::new(seed_r),
            ),
        ),
    ));
    match mat_mul(s, tx) {
        Ok(p) => {
            assert(p.rows == m && p.cols == n);
        },
        Err(e) => {
            assert(e is Overflow);
        },
    }
    match mat_mul(tw, s) {
        Ok(q) => {
            assert(q.rows == n && q.cols == 1);
        },
        Err(e) => {
            assert(e is Overflow);
        },
    }
}

/// Transpose commutation: transposing a matrix product is the same
/// computation as multiplying the transposes in reverse order —
/// entry by entry, rounding included, and with the same overflow
/// outcome. This is the identity that makes the transpose-based
/// product rule sound.
pub proof fn lemma_transpose_of_product(a: MatModel, b: MatModel)
    requires
        dense_wf(a),
        dense_wf(b),
        a.cols == b.rows,
    ensures
        match mat_mul(a, b) {
            Ok(p) => mat_mul(mat_transpose(b), mat_transpose(a)) == Ok::<MatModel, Error>(
                mat_transpose(p),
            ),
            Err(e) => mat_mul(mat_transpose(b), mat_transpose(a)) == Err::<MatModel, Error>(e),
        },
{
    let tb = mat_transpose(b);
    let ta = mat_transpose(a);
    assert forall|i: int, j: int| 0 <= i < b.cols && 0 <= j < a.rows implies #[trigger] dot(
        tb,
        ta,
        i,
        j,
    ) == dot(a, b, j, i) by {
        lemma_dot_transpose(a, b, i, j, a.cols as nat);
    }
    assert(b.cols * a.rows == a.rows * b.cols) by (nonlinear_arith);
    match mat_mul(a, b) {
        Ok(p) => {
            assert(!(exists|nn: int|
                0 <= nn < tb.rows * ta.cols && !in_lim(
                    #[trigger] dot(tb, ta, nn / ta.cols, nn % ta.cols),
                ))) by {
                if exists|nn: int|
                    0 <= nn < tb.rows * ta.cols && !in_lim(
                        #[trigger] dot(tb, ta, nn / ta.cols, nn % ta.cols),
                    ) {
                    let nn = choose|nn: int|
                        0 <= nn < tb.rows * ta.cols && !in_lim(
                            #[trigger] dot(tb, ta, nn / ta.cols, nn % ta.cols),
                        );
                    let i = nn / ta.cols;
                    let j = nn % ta.cols;
                    vstd::arithmetic::div_mod::lemma_remainder_lower(nn, ta.cols);
                    vstd::arithmetic::div_mod::lemma_remainder_upper(nn, ta.cols);
                    vstd::arithmetic::div_mod::lemma_div_pos_is_pos(nn, ta.cols);
                    lemma_div_bound(nn, tb.rows, ta.cols);
                    let mm = j * b.cols + i;
                    lemma_entry_index(j, i, b.cols);
                    lemma_index_bound(j, i, a.rows, b.cols);
                    assert(!in_lim(dot(a, b, mm / b.cols, mm % b.cols)));
                    assert(false);
                }
            }
            let q = mat_mul(tb, ta)->Ok_0;
            assert(q.elems =~= mat_transpose(p).elems) by {
                assert forall|nn: int| 0 <= nn < q.elems.len() implies q.elems[nn]
                    == mat_transpose(p).elems[nn] by {
                    let i = nn / ta.cols;
                    let j = nn % ta.cols;
                    vstd::arithmetic::div_mod::lemma_remainder_lower(nn, ta.cols);
                    vstd::arithmetic::div_mod::lemma_remainder_upper(nn, ta.cols);
                    vstd::arithmetic::div_mod::lemma_div_pos_is_pos(nn, ta.cols);
                    lemma_div_bound(nn, tb.rows, ta.cols);
                    // Entry (i, j) of the reversed product is entry
                    // (j, i) of the product, which is dot(a, b, j, i).
                    assert(mat_transpose(p).elems[nn] == ent(p, nn % p.rows, nn / p.rows));
                    assert(ent(p, j, i) == p.elems[j * b.cols + i]);
                    lemma_entry_index(j, i, b.cols);
                    lemma_index_bound(j, i, a.rows, b.cols);
                    assert(p.elems[j * b.cols + i] == dot(a, b, j, i));
                }
            }
            assert(mat_mul(tb, ta) == Ok::<MatModel, Error>(mat_transpose(p)));
        },
        Err(e) => {
            let nn = choose|nn: int|
                0 <= nn < a.rows * b.cols && !in_lim(
                    #[trigger] dot(a, b, nn / b.cols, nn % b.cols),
                );
            let i = nn / b.cols;
            let j = nn % b.cols;
            vstd::arithmetic::div_mod::lemma_remainder_lower(nn, b.cols);
            vstd::arithmetic::div_mod::lemma_remainder_upper(nn, b.cols);
            vstd::arithmetic::div_mod::lemma_div_pos_is_pos(nn, b.cols);
            lemma_div_bound(nn, a.rows, b.cols);
            let mm = j * ta.cols + i;
            lemma_entry_index(j, i, ta.cols);
            lemma_index_bound(j, i, b.cols, a.rows);
            assert(tb.rows * ta.cols == b.cols * a.rows);
            assert(!in_lim(dot(tb, ta, mm / ta.cols, mm % ta.cols)));
        },
    }
}

/// `x / d < r` when `x < r * d` for positive `d` and nonnegative `x`.
proof fn lemma_div_bound(x: int, r: int, d: int)
    requires
        0 <= x,
        0 < d,
        x < r * d,
    ensures
        x / d < r,
{
    vstd::arithmetic::div_mod::lemma_fundamental_div_mod(x, d);
    vstd::arithmetic::div_mod::lemma_remainder_lower(x, d);
    vstd::arithmetic::div_mod::lemma_div_pos_is_pos(x, d);
    assert(x / d < r) by (nonlinear_arith)
        requires
            (x / d) * d <= x,
            x < r * d,
            0 < d,
            0 <= x / d,
    ;
}

/// Matching prefixes of the two dot products behind transpose
/// commutation: term by term, the factors swap and multiplication of
/// fixed-point bits commutes.
proof fn lemma_dot_transpose(a: MatModel, b: MatModel, i: int, j: int, n: nat)
    requires
        dense_wf(a),
        dense_wf(b),
        a.cols == b.rows,
        0 <= i < b.cols,
        0 <= j < a.rows,
        n <= a.cols,
    ensures
        dot_prefix(mat_transpose(b), mat_transpose(a), i, j, n) == dot_prefix(a, b, j, i, n),
    decreases n,
{
    if n > 0 {
        lemma_dot_transpose(a, b, i, j, (n - 1) as nat);
        lemma_transpose_ent(b, i, n - 1);
        lemma_transpose_ent(a, n - 1, j);
        assert(ent(b, n - 1, i) * ent(a, j, n - 1) == ent(a, j, n - 1) * ent(b, n - 1, i))
            by (nonlinear_arith);
    }
}

/// Transpose commutation at the expression level: for operands that
/// evaluate to present, well-formed matrices with fitting inner
/// dimensions, evaluating `(a * b)'` is the same as evaluating
/// `b' * a'` — the same matrix on success, the same error otherwise.
pub proof fn lemma_transpose_commutation(a: TermModel, b: TermModel, am: MatModel, bm: MatModel)
    requires
        eval_term(a) == Ok::<ValueModel, Error>(ValueModel::Matrix(Some(am))),
        eval_term(b) == Ok::<ValueModel, Error>(ValueModel::Matrix(Some(bm))),
        dense_wf(am),
        dense_wf(bm),
        am.cols == bm.rows,
    ensures
        eval_term(TermModel::Transpose(Box::new(TermModel::Mul(Box::new(a), Box::new(b)))))
            == eval_term(
            TermModel::Mul(
                Box::new(TermModel::Transpose(Box::new(b))),
                Box::new(TermModel::Transpose(Box::new(a))),
            ),
        ),
{
    reveal_with_fuel(eval_term, 4);
    lemma_transpose_of_product(am, bm);
}

} // verus!
