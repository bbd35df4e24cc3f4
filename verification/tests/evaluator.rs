use fuzz_core::ast_evaluator::ad_backend::{apply, bind_inputs};
use fuzz_core::ast_evaluator::{evaluate, Env, EvalError, MainBackend};
use fuzz_core::ast_expr::{Expr, Op1, Op2, SimpleExpr, Type};
use fuzz_core::fuzz_harness::Calculator;
use fuzz_core::ast_evaluator::AdEvaluator;

/// A plain double.
#[derive(Debug, Clone, Copy, PartialEq)]
struct Plain(f64);

impl MainBackend for Plain {
    type Model = ();
    fn model(&self) {}
    fn literal(_: u64) {}
    fn zero_model() {}
    fn one_model() {}
    fn unary(_: Op1, _: ()) {}
    fn binary(_: Op2, _: (), _: ()) {}
    fn from_f64(bits: u64) -> Self { Plain(f64::from_bits(bits)) }
    fn zero() -> Self { Plain(0.0) }
    fn one() -> Self { Plain(1.0) }
    fn neg(self) -> Self { Plain(-self.0) }
    fn sin(self) -> Self { Plain(self.0.sin()) }
    fn cos(self) -> Self { Plain(self.0.cos()) }
    fn tan(self) -> Self { Plain(self.0.tan()) }
    fn exp(self) -> Self { Plain(self.0.exp()) }
    fn log(self) -> Self { Plain(self.0.ln()) }
    fn sqrt(self) -> Self { Plain(self.0.sqrt()) }
    fn abs(self) -> Self { Plain(self.0.abs()) }
    fn add(self, other: Self) -> Self { Plain(self.0 + other.0) }
    fn sub(self, other: Self) -> Self { Plain(self.0 - other.0) }
    fn mul(self, other: Self) -> Self { Plain(self.0 * other.0) }
    fn div(self, other: Self) -> Self { Plain(self.0 / other.0) }
    fn pow(self, other: Self) -> Self { Plain(self.0.powf(other.0)) }
    fn duplicate(&self) -> Self { *self }
}

/// A value with its derivative along one direction: forward mode by hand.
#[derive(Debug, Clone, Copy, PartialEq)]
struct Dual(f64, f64);

impl MainBackend for Dual {
    type Model = ();
    fn model(&self) {}
    fn literal(_: u64) {}
    fn zero_model() {}
    fn one_model() {}
    fn unary(_: Op1, _: ()) {}
    fn binary(_: Op2, _: (), _: ()) {}
    fn from_f64(bits: u64) -> Self { Dual(f64::from_bits(bits), 0.0) }
    fn zero() -> Self { Dual(0.0, 0.0) }
    fn one() -> Self { Dual(1.0, 0.0) }
    fn neg(self) -> Self { Dual(-self.0, -self.1) }
    fn sin(self) -> Self { Dual(self.0.sin(), self.1 * self.0.cos()) }
    fn cos(self) -> Self { Dual(self.0.cos(), -self.1 * self.0.sin()) }
    fn tan(self) -> Self { Dual(self.0.tan(), self.1 / (self.0.cos() * self.0.cos())) }
    fn exp(self) -> Self { Dual(self.0.exp(), self.1 * self.0.exp()) }
    fn log(self) -> Self { Dual(self.0.ln(), self.1 / self.0) }
    fn sqrt(self) -> Self { Dual(self.0.sqrt(), self.1 / (2.0 * self.0.sqrt())) }
    fn abs(self) -> Self { Dual(self.0.abs(), self.1 * self.0.signum()) }
    fn add(self, other: Self) -> Self { Dual(self.0 + other.0, self.1 + other.1) }
    fn sub(self, other: Self) -> Self { Dual(self.0 - other.0, self.1 - other.1) }
    fn mul(self, other: Self) -> Self { Dual(self.0 * other.0, self.1 * other.0 + self.0 * other.1) }
    fn div(self, other: Self) -> Self {
        Dual(self.0 / other.0, (self.1 * other.0 - self.0 * other.1) / (other.0 * other.0))
    }
    fn pow(self, other: Self) -> Self {
        // Only constant exponents occur in these tests.
        Dual(self.0.powf(other.0), other.0 * self.0.powf(other.0 - 1.0) * self.1)
    }
    fn duplicate(&self) -> Self { *self }
}

fn num(v: f64) -> SimpleExpr {
    SimpleExpr::num(v.to_bits())
}

fn jacobian(expr: &SimpleExpr, point: &[f64]) -> Vec<f64> {
    (0..point.len())
        .map(|k| {
            let inputs: Vec<Dual> = point
                .iter()
                .enumerate()
                .map(|(i, v)| Dual(*v, if i == k { 1.0 } else { 0.0 }))
                .collect();
            apply(expr, point.len(), &inputs).unwrap().1
        })
        .collect()
}

#[test]
fn scenario_scaled_variable() {
    let e = SimpleExpr::mul(num(-0.1), SimpleExpr::var("x_0"));
    assert_eq!(jacobian(&e, &[1.0]), vec![-0.1]);
    assert_eq!(apply(&e, 1, &[Plain(1.0)]).unwrap(), Plain(-0.1));
}

#[test]
fn scenario_sum_of_two_variables() {
    let e = SimpleExpr::add(SimpleExpr::var("x_0"), SimpleExpr::var("x_1"));
    assert_eq!(jacobian(&e, &[3.0, 4.0]), vec![1.0, 1.0]);
    assert_eq!(apply(&e, 2, &[Plain(3.0), Plain(4.0)]).unwrap(), Plain(7.0));
}

#[test]
fn scenario_square_root_of_a_negative_number() {
    let e = SimpleExpr::sqrt(SimpleExpr::var("x_0"));
    let r = apply(&e, 1, &[Plain(-1.0)]).unwrap();
    assert!(r.0.is_nan());
    assert!(!r.0.is_finite());
}

#[test]
fn scenario_polynomial() {
    let e = SimpleExpr::add(
        SimpleExpr::add(
            SimpleExpr::pow(SimpleExpr::var("x_0"), num(2.0)),
            SimpleExpr::mul(num(2.0), SimpleExpr::var("x_1")),
        ),
        num(3.0),
    );
    // 2^2 + 2*1 + 3
    assert_eq!(apply(&e, 2, &[Plain(2.0), Plain(1.0)]).unwrap(), Plain(9.0));
    assert_eq!(jacobian(&e, &[2.0, 1.0]), vec![4.0, 2.0]);
}

#[test]
fn evaluation_repeats_bit_for_bit() {
    let e = SimpleExpr::mul(
        SimpleExpr::sin(SimpleExpr::var("x_0")),
        SimpleExpr::cos(SimpleExpr::var("x_1")),
    );
    let a = apply(&e, 2, &[Plain(0.5), Plain(1.0)]).unwrap();
    let b = apply(&e, 2, &[Plain(0.5), Plain(1.0)]).unwrap();
    assert_eq!(a.0.to_bits(), b.0.to_bits());
    assert_eq!(a.0, 0.5f64.sin() * 1.0f64.cos());
}

#[test]
fn an_unbound_variable_is_an_error() {
    let e = SimpleExpr::add(SimpleExpr::var("x_0"), SimpleExpr::var("y"));
    let env = bind_inputs(&[Plain(1.0)]);
    match evaluate::<Plain, ()>(&e, &env) {
        Err(EvalError::UnboundVariable(name)) => assert_eq!(name, "y"),
        other => panic!("unexpected: {:?}", other),
    }
}

#[test]
fn a_boolean_is_an_error() {
    let env: Env<Plain> = Env::new();
    let e: SimpleExpr = Expr::Boolean((), true);
    assert!(matches!(evaluate::<Plain, ()>(&e, &env), Err(EvalError::BooleanInNumericContext)));
    assert_eq!(
        EvalError::BooleanInNumericContext.message(),
        "Boolean not supported in numeric expressions"
    );
}

#[test]
fn nodes_without_numeric_meaning_are_errors() {
    let env: Env<Plain> = Env::new();
    let one = || Box::new(num(1.0));
    let nodes: Vec<SimpleExpr> = vec![
        Expr::If((), one(), one(), one()),
        Expr::Loop((), one()),
        Expr::Break((), one()),
        Expr::Assign((), "v".to_string(), one()),
        Expr::Cast((), Type::Int, one()),
    ];
    for node in &nodes {
        assert!(matches!(evaluate::<Plain, ()>(node, &env), Err(EvalError::UnsupportedNode)));
    }
    assert_eq!(EvalError::UnsupportedNode.message(), "Unsupported expression type");
}

#[test]
fn let_bindings_see_the_outer_environment() {
    // let x_0 = 10, z = x_0 + 1 in x_0 * z, at x_0 = 2: z is 3, not 11.
    let e: SimpleExpr = Expr::Let(
        (),
        vec![
            ("x_0".to_string(), num(10.0)),
            ("z".to_string(), SimpleExpr::add(SimpleExpr::var("x_0"), num(1.0))),
        ],
        Box::new(SimpleExpr::mul(SimpleExpr::var("x_0"), SimpleExpr::var("z"))),
    );
    assert_eq!(apply(&e, 1, &[Plain(2.0)]).unwrap(), Plain(30.0));
}

#[test]
fn a_block_has_the_value_of_its_last_expression() {
    let block: SimpleExpr = Expr::Block((), vec![num(1.0), num(2.0), SimpleExpr::var("x_0")]);
    assert_eq!(apply(&block, 1, &[Plain(7.0)]).unwrap(), Plain(7.0));
    let empty: SimpleExpr = Expr::Block((), vec![]);
    assert_eq!(apply(&empty, 1, &[Plain(7.0)]).unwrap(), Plain(0.0));
    let failing: SimpleExpr = Expr::Block((), vec![SimpleExpr::var("nope"), num(2.0)]);
    assert!(matches!(
        apply(&failing, 1, &[Plain(7.0)]),
        Err(EvalError::UnboundVariable(_))
    ));
}

#[test]
fn a_point_of_another_length_is_refused() {
    let e = SimpleExpr::var("x_0");
    assert!(matches!(apply(&e, 1, &[Plain(1.0), Plain(2.0)]), Err(EvalError::ArityMismatch)));
    assert!(matches!(apply::<Plain, ()>(&e, 1, &[]), Err(EvalError::ArityMismatch)));
    let adapter = AdEvaluator { expr: e, num_inputs: 1, num_outputs: 1 };
    assert!(matches!(adapter.eval_expr(&[Plain(1.0), Plain(2.0)]), Err(EvalError::ArityMismatch)));
    assert_eq!(adapter.eval_expr(&[Plain(5.0)]).unwrap(), Plain(5.0));
    assert_eq!(adapter.num_inputs(), 1);
    assert_eq!(EvalError::ArityMismatch.message(), "Input arity mismatch");
}

#[test]
fn every_unary_operator_reaches_the_backend() {
    let x = 0.75f64;
    let cases: Vec<(Op1, f64)> = vec![
        (Op1::Neg, -x),
        (Op1::Sin, x.sin()),
        (Op1::Cos, x.cos()),
        (Op1::Tan, x.tan()),
        (Op1::Exp, x.exp()),
        (Op1::Log, x.ln()),
        (Op1::Sqrt, x.sqrt()),
        (Op1::Abs, x.abs()),
    ];
    for (op, expected) in cases {
        let e: SimpleExpr = Expr::UnOp((), op, Box::new(SimpleExpr::var("x_0")));
        assert_eq!(apply(&e, 1, &[Plain(x)]).unwrap(), Plain(expected));
    }
}

#[test]
fn every_binary_operator_reaches_the_backend() {
    let (a, b) = (6.0f64, 1.5f64);
    let x = || SimpleExpr::var("x_0");
    let y = || SimpleExpr::var("x_1");
    let point = [Plain(a), Plain(b)];
    assert_eq!(apply(&SimpleExpr::add(x(), y()), 2, &point).unwrap(), Plain(a + b));
    assert_eq!(apply(&SimpleExpr::sub(x(), y()), 2, &point).unwrap(), Plain(a - b));
    assert_eq!(apply(&SimpleExpr::mul(x(), y()), 2, &point).unwrap(), Plain(a * b));
    assert_eq!(apply(&SimpleExpr::div(x(), y()), 2, &point).unwrap(), Plain(a / b));
    assert_eq!(apply(&SimpleExpr::pow(x(), y()), 2, &point).unwrap(), Plain(a.powf(b)));
}

#[test]
fn a_clone_is_the_same_tree() {
    let e: SimpleExpr = Expr::Let(
        (),
        vec![("z".to_string(), SimpleExpr::exp(SimpleExpr::var("x_0")))],
        Box::new(Expr::Block((), vec![SimpleExpr::neg(SimpleExpr::var("z")), SimpleExpr::log(SimpleExpr::var("z"))])),
    );
    assert_eq!(format!("{:?}", e.clone()), format!("{:?}", e));
    assert_eq!(e.tag(), &());
}
