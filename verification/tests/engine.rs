use autodiff::Node;
use autodiff::Differentiable;
use autodiff::error::Error;
use autodiff::mat::{Dense, MatrixNode, mat};
use autodiff::term::Term;
use autodiff::value::{Atom, NodeValue, Value, SCALE};
use autodiff::primitive_ops::{ElemMul, Exp};

fn sc(i: i64) -> Node {
    Node::new(Term::Value(Value::Scalar(NodeValue::from_int(i))))
}

fn scalar_bits(v: &Value) -> i64 {
    match v {
        Value::Scalar(s) => s.0,
        other => panic!("expected a scalar, got {:?}", other),
    }
}

fn matrix_entries(v: &Value) -> Vec<i64> {
    match v {
        Value::Matrix(MatrixNode(Some(d))) => d.entries().clone(),
        other => panic!("expected a present matrix, got {:?}", other),
    }
}

fn dense(rows: usize, cols: usize, vals: &[i64]) -> Dense {
    let bits: Vec<i64> = vals.iter().map(|v| v * SCALE).collect();
    Dense::new(rows, cols, bits).unwrap()
}

fn as_real(bits: i64) -> f64 {
    bits as f64 / SCALE as f64
}

#[test]
fn lib_basic() {
    let x = NodeValue::from_int(2).symbol("x");
    let y = NodeValue::from_int(3).symbol("y");
    let f = (x.clone() * y.clone() + x.clone() * x.clone()) / (y.clone() + x.clone());

    let d = f.derivative(&["x", "y"], &sc(1));
    let dx = scalar_bits(&d[0].eval().unwrap());
    let dy = scalar_bits(&d[1].eval().unwrap());

    assert_eq!(as_real(dy), 0.);
    assert!((as_real(dx) - 1.).abs() < 1e-6, "{} != 1", as_real(dx));
}

#[test]
fn backwards_basic() {
    let x = NodeValue::from_int(2).symbol("x");
    let y = NodeValue::from_int(3).symbol("y");
    let f = x.clone() * y.clone() + x.clone() * x.clone();
    assert_eq!(scalar_bits(&f.eval().unwrap()), 10 * SCALE);
    let delta = f.derivative(&["x", "y"], &sc(1));
    println!("dx={:?}", scalar_bits(&delta[0].eval().unwrap()));
    println!("dy={:?}", scalar_bits(&delta[1].eval().unwrap()));
    assert_eq!(scalar_bits(&delta[0].eval().unwrap()), 7 * SCALE);
    assert_eq!(scalar_bits(&delta[1].eval().unwrap()), 2 * SCALE);
}

#[test]
fn test_basic() {
    let x = NodeValue::from_int(2).symbol("x");
    let y = NodeValue::from_int(3).symbol("y");
    let f = x.clone() * y.clone() + x.clone() * x.clone();
    assert_eq!(scalar_bits(&f.eval().unwrap()), 10 * SCALE);
    let delta = f.derivative(&["x", "y"], &sc(1));
    println!("dx={:?}", scalar_bits(&delta[0].eval().unwrap()));
    println!("dy={:?}", scalar_bits(&delta[1].eval().unwrap()));
    assert_eq!(scalar_bits(&delta[0].eval().unwrap()), 7 * SCALE);
    assert_eq!(scalar_bits(&delta[1].eval().unwrap()), 2 * SCALE);
}

#[test]
fn div() {
    let x = NodeValue::from_int(1).symbol("x");
    let y = NodeValue::from_int(2).symbol("y");

    let f1 = x.clone() / (y.clone() + x.clone());
    let f2 = y.clone() / (y.clone() + x.clone());
    let d1 = f1.derivative(&["x", "y"], &sc(1));
    let d2 = f2.derivative(&["x", "y"], &sc(1));
    let dx = &d1[0];
    let dy = &d2[1];
    let dxv = as_real(scalar_bits(&dx.eval().unwrap()));
    let dxy = as_real(scalar_bits(&dy.eval().unwrap()));

    println!("{dxv:?}");
    println!("{dxy:?}");
    assert!(dxv - 0.2222222 < 1e-6);
    assert!(dxy - 0.1111111 < 1e-6);
    assert!((dxv - 2.0 / 9.0).abs() < 1e-6);
    assert!((dxy - 1.0 / 9.0).abs() < 1e-6);
}

#[test]
fn ord() {
    assert!(Atom::One > Atom::Zero)
}

#[test]
fn exp() {
    let xs = mat(dense(4, 1, &[1, 2, 3, 4])).symbol("x");

    let g1 = (xs.clone() * sc(4) + sc(1)).exp() * sc(5);
    let dexp = sc(20).elem_mul((xs.clone() * sc(4) + sc(1)).exp());

    let d = g1.derivative(&["x"], &sc(1));
    let expected = matrix_entries(&dexp.eval().unwrap());
    let got = matrix_entries(&d[0].eval().unwrap());
    assert_eq!(expected, got);
}

#[test]
fn softmax() {
    fn delta_softmax(x: &mut [f64]) {
        let sum: f64 = x.iter().map(|x| x.exp()).sum();
        for x in x {
            let d = x.exp() / sum;
            *x = d * (1. - d)
        }
    }

    let x_src = [1f64, 2., 3., 4., 2.5, 3.8];
    let bits: Vec<i64> = x_src.iter().map(|v| (v * SCALE as f64) as i64).collect();
    let x = mat(Dense::new(6, 1, bits).unwrap()).symbol("x");

    let sum = x.clone().exp().sum();
    let softmax = x.clone().exp() / sum;
    let d = softmax.derivative(&["x"], &sc(1));
    let got = matrix_entries(&d[0].eval().unwrap());

    let mut expected = x_src;
    delta_softmax(&mut expected);

    let total: f64 = got
        .iter()
        .zip(expected.iter())
        .map(|(g, e)| (as_real(*g) - e).abs())
        .sum();
    assert!(total < 1e-6, "error too large: {total}");
}

#[test]
fn sum_rule_scenario() {
    let a = NodeValue::from_int(5).symbol("a");
    let b = NodeValue::from_int(11).symbol("b");
    let f = a + b;
    let d = f.derivative(&["a", "b"], &sc(7));
    assert_eq!(scalar_bits(&d[0].eval().unwrap()), 7 * SCALE);
    assert_eq!(scalar_bits(&d[1].eval().unwrap()), 7 * SCALE);
}

#[test]
fn absent_name_is_zero() {
    let x = NodeValue::from_int(2).symbol("x");
    let y = NodeValue::from_int(3).symbol("y");
    let f = x * y;
    let d = f.derivative(&["z"], &sc(1));
    assert!(d[0].is_zero());
    assert_eq!(scalar_bits(&d[0].eval().unwrap()), 0);
}

#[test]
fn absent_name_matrix_stays_structural_zero() {
    let a = mat(dense(2, 3, &[1, 2, 3, 4, 5, 6])).symbol("a");
    let b = mat(dense(3, 1, &[1, 1, 1])).symbol("b");
    let f = a * b;
    let seed = Node::new(Term::Value(Value::Matrix(mat(dense(2, 1, &[1, 1])))));
    let d = f.derivative(&["nowhere"], &seed);
    assert!(d[0].is_zero());
    match d[0].eval().unwrap() {
        Value::Matrix(m) => assert!(m.is_zero()),
        other => panic!("expected a matrix, got {:?}", other),
    }
}

#[test]
fn matrix_shape_scenario() {
    // W is 2x3, x is 3x1, seed is 2x1: the derivative with respect
    // to the weights has the weights' shape, the one with respect to
    // the input has the input's shape.
    let w = mat(dense(2, 3, &[1, 2, 3, 4, 5, 6])).symbol("w");
    let x = mat(dense(3, 1, &[7, 8, 9])).symbol("x");
    let f = w * x;
    let seed = Node::new(Term::Value(Value::Matrix(mat(dense(2, 1, &[1, 1])))));
    let d = f.derivative(&["w", "x"], &seed);
    match d[0].eval().unwrap() {
        Value::Matrix(m) => assert_eq!(m.shape(), Some((2, 3))),
        other => panic!("expected a matrix, got {:?}", other),
    }
    match d[1].eval().unwrap() {
        Value::Matrix(m) => assert_eq!(m.shape(), Some((3, 1))),
        other => panic!("expected a matrix, got {:?}", other),
    }
}

#[test]
fn transpose_commutation_scenario() {
    let a = Node::new(Term::Value(Value::Matrix(mat(dense(2, 3, &[1, 2, 3, 4, 5, 6])))));
    let b = Node::new(Term::Value(Value::Matrix(mat(dense(3, 2, &[7, 8, 9, 10, 11, 12])))));
    let lhs = (a.clone() * b.clone()).transpose().eval().unwrap();
    let rhs = (b.transpose() * a.transpose()).eval().unwrap();
    assert_eq!(matrix_entries(&lhs), matrix_entries(&rhs));
}

#[test]
fn product_rule_with_matrices() {
    // d(W.x)/dW with seed s is s . x^T, entry for entry.
    let wv = dense(2, 2, &[1, 2, 3, 4]);
    let xv = dense(2, 1, &[5, 6]);
    let sv = dense(2, 1, &[1, 1]);
    let w = mat(wv).symbol("w");
    let x = mat(xv).symbol("x");
    let f = w * x;
    let seed = Node::new(Term::Value(Value::Matrix(mat(sv))));
    let d = f.derivative(&["w"], &seed);
    let got = matrix_entries(&d[0].eval().unwrap());
    // s . x^T = [[5, 6], [5, 6]]
    let expected: Vec<i64> = [5, 6, 5, 6].iter().map(|v| v * SCALE).collect();
    assert_eq!(got, expected);
}

#[test]
fn shape_mismatch_error() {
    let a = Node::new(Term::Value(Value::Matrix(mat(dense(2, 2, &[1, 2, 3, 4])))));
    let b = Node::new(Term::Value(Value::Matrix(mat(dense(1, 1, &[1])))));
    match (a + b).eval() {
        Err(Error::ShapeMismatch { expected, actual }) => {
            assert_eq!(expected, (2, 2));
            assert_eq!(actual, (1, 1));
        },
        other => panic!("expected a shape mismatch, got {:?}", other),
    }
}

#[test]
fn division_by_zero_error() {
    let x = sc(1);
    let z = sc(0);
    assert!(matches!((x / z).eval(), Err(Error::DivisionByZero)));

    // Division by the structural zero matrix is an explicit error.
    let y = sc(1);
    let none = Node::new(Term::Value(Value::Matrix(MatrixNode(None))));
    assert!(matches!((y / none).eval(), Err(Error::DivisionByZero)));
}

#[test]
fn overflow_error() {
    let big = Node::new(Term::Value(Value::Scalar(NodeValue(i64::MAX))));
    let big2 = Node::new(Term::Value(Value::Scalar(NodeValue(i64::MAX))));
    assert!(matches!((big + big2).eval(), Err(Error::Overflow)));
}

#[test]
fn unsupported_combination_error() {
    let a = Node::new(Term::Value(Value::Atom(Atom::Zero)));
    let b = Node::new(Term::Value(Value::Atom(Atom::One)));
    assert!(matches!((a - b).eval(), Err(Error::UnsupportedCombination)));
}

#[test]
fn anonymous_symbol_cannot_be_evaluated() {
    let s = autodiff::symbol::symbol("ghostly");
    assert!(matches!(s.eval(), Err(Error::Unevaluable)));
    let d = s.derivative(&["ghostly"], &sc(3));
    assert_eq!(scalar_bits(&d[0].eval().unwrap()), 3 * SCALE);
}

#[test]
fn anon_module_symbol_differentiates() {
    let s = autodiff::anon::symbol("q");
    let d = s.derivative(&["q", "r"], &sc(2));
    assert_eq!(scalar_bits(&d[0].eval().unwrap()), 2 * SCALE);
    assert!(d[1].is_zero());
}

#[test]
fn scalar_exponential_values() {
    assert_eq!(Exp::exp(NodeValue(0)).0, SCALE);
    let e1 = as_real(Exp::exp(NodeValue(SCALE)).0);
    assert!((e1 - std::f64::consts::E).abs() < 1e-6, "exp(1) = {e1}");
    let em1 = as_real(Exp::exp(NodeValue(-SCALE)).0);
    assert!((em1 - 1.0 / std::f64::consts::E).abs() < 1e-6, "exp(-1) = {em1}");
}

#[test]
fn elem_mul_values() {
    let a = dense(2, 2, &[1, 2, 3, 4]);
    let b = dense(2, 2, &[5, 6, 7, 8]);
    let p = ElemMul::elem_mul(mat(a), mat(b)).unwrap();
    match p.0 {
        Some(d) => {
            let expected: Vec<i64> = [5, 12, 21, 32].iter().map(|v| v * SCALE).collect();
            assert_eq!(d.entries().clone(), expected);
        },
        None => panic!("expected a present matrix"),
    }
}

#[test]
fn negation_and_sub() {
    let x = NodeValue::from_int(2).symbol("x");
    let y = NodeValue::from_int(7).symbol("y");
    let f = y.clone() - x.clone();
    assert_eq!(scalar_bits(&f.eval().unwrap()), 5 * SCALE);
    let g = -x.clone();
    assert_eq!(scalar_bits(&g.eval().unwrap()), -2 * SCALE);
    let d = f.derivative(&["x"], &sc(1));
    assert_eq!(scalar_bits(&d[0].eval().unwrap()), -SCALE);
}

#[test]
fn sum_reduces_matrix() {
    let m = mat(dense(2, 3, &[1, 2, 3, 4, 5, 6]));
    let f = Node::new(Term::Value(Value::Matrix(m))).sum();
    assert_eq!(scalar_bits(&f.eval().unwrap()), 21 * SCALE);
}

#[test]
fn dense_construction_is_checked() {
    assert!(Dense::new(2, 2, vec![1, 2, 3]).is_none());
    assert!(Dense::new(2, 2, vec![1, 2, 3, 4]).is_some());
    assert!(Dense::new(1, 1, vec![i64::MAX]).is_none());
}

#[test]
fn matrix_node_equality() {
    let a = mat(dense(2, 2, &[1, 2, 3, 4]));
    let b = mat(dense(2, 2, &[1, 2, 3, 4]));
    let c = mat(dense(2, 2, &[1, 2, 3, 5]));
    let z1 = MatrixNode(None);
    let z2 = MatrixNode(None);
    assert!(a == b);
    assert!(!(a == c));
    assert!(z1 == z2);
    assert!(!(a == z1));
    assert_eq!(a.shape(), Some((2, 2)));
    assert_eq!(z1.shape(), None);
}

#[test]
fn atom_arithmetic() {
    assert_eq!(Atom::One.mul(Atom::One), Atom::One);
    assert_eq!(Atom::One.mul(Atom::Zero), Atom::Zero);
    assert_eq!(Atom::Zero.add(Atom::One), Atom::One);
    assert_eq!(Atom::One.add(Atom::Zero), Atom::One);
    assert!(Atom::Zero.is_zero());
    assert!(!Atom::One.is_zero());
    assert_eq!(NodeValue::from(Atom::One).0, SCALE);
    assert_eq!(NodeValue::from(Atom::Zero).0, 0);
}

#[test]
fn transpose_is_identity_on_scalars() {
    let x = NodeValue::from_int(3).symbol("x");
    let f = x.transpose();
    assert_eq!(scalar_bits(&f.eval().unwrap()), 3 * SCALE);
}

#[test]
fn gradient_decent() {
    let x = mat(dense(3, 1, &[1, 2, 3])).symbol("input");

    let w1 = mat(dense(2, 3, &[1, 0, 1, 0, 1, 0])).symbol("w1");
    let b1 = mat(dense(2, 1, &[1, 1])).symbol("b1");

    let w2 = mat(dense(4, 2, &[1, 2, 3, 4, 5, 6, 7, 8])).symbol("w2");
    let b2 = mat(dense(4, 1, &[1, 1, 1, 1])).symbol("b2");

    let dl2 = Node::new(Term::Value(Value::Matrix(mat(dense(4, 1, &[1, 1, 1, 1])))));

    let l1 = w1.clone() * x.clone() + b1.clone();
    let l2 = w2.clone() * l1 + b2.clone();
    let d = l2.derivative(&["w1", "w2"], &dl2);
    let dw1 = &d[0];
    let dw2 = &d[1];

    l2.eval().unwrap();

    println!("dw1 = {dw1:?}");
    println!();
    println!("dw2 = {dw2:?}");
    println!();

    let shape_of = |n: &Node| match n.eval().unwrap() {
        Value::Matrix(m) => m.shape(),
        other => panic!("expected a matrix, got {:?}", other),
    };
    assert_eq!(shape_of(dw2), shape_of(&w2));
    assert_eq!(shape_of(dw1), shape_of(&w1));
}

#[test]
fn transpose_values() {
    let a = Node::new(Term::Value(Value::Matrix(mat(dense(2, 3, &[1, 2, 3, 4, 5, 6])))));
    match a.transpose().eval().unwrap() {
        Value::Matrix(MatrixNode(Some(d))) => {
            assert_eq!(d.nrows(), 3);
            assert_eq!(d.ncols(), 2);
            assert_eq!(d.get(0, 1), 4 * SCALE);
            assert_eq!(d.get(2, 0), 3 * SCALE);
        },
        other => panic!("expected a present matrix, got {:?}", other),
    }
}

#[test]
fn describe_special_cases_zero() {
    assert_eq!(MatrixNode(None).describe(), "Zero");
    let shown = mat(dense(2, 3, &[1, 2, 3, 4, 5, 6])).describe();
    assert_eq!(shown, " [2x3] ");
}
