use std::collections::HashMap;
use arbitrary::Unstructured;
use fuzz_core::ast_evaluator::ad_backend::apply;
use fuzz_core::ast_evaluator::{InfixPrinter, MainBackend};
use fuzz_core::ast_expr::{Expr, Op1, Op2, SimpleExpr};
use fuzz_core::ast_generator::{
    any_binary_operator, any_unary_operator, arbitrary_op1, arbitrary_op2, binary_operator,
    generate_expr_arbitrary, generate_from_bytes, literal, unary_operator, AstGenConfig,
    GenerationError,
};
use std::collections::HashSet;

/// The literals of an expression, written as doubles are.
fn spelling<T>(e: &Expr<T>) -> HashMap<u64, String> {
    e.literals().into_iter().map(|b| (b, format!("{}", f64::from_bits(b)))).collect()
}

#[derive(Debug, Clone, Copy, PartialEq)]
struct Plain(f64);

impl MainBackend for Plain {
    type Model = ();
    fn model(&self) {}
    fn literal(_: u64) {}
    fn zero_model() {}
    fn one_model() {}
    fn unary(_: Op1, _: ()) {}
    fn binary(_: Op2, _: (), _: ()) {}
    fn from_f64(bits: u64) -> Self { Plain(f64::from_bits(bits)) }
    fn zero() -> Self { Plain(0.0) }
    fn one() -> Self { Plain(1.0) }
    fn neg(self) -> Self { Plain(-self.0) }
    fn sin(self) -> Self { Plain(self.0.sin()) }
    fn cos(self) -> Self { Plain(self.0.cos()) }
    fn tan(self) -> Self { Plain(self.0.tan()) }
    fn exp(self) -> Self { Plain(self.0.exp()) }
    fn log(self) -> Self { Plain(self.0.ln()) }
    fn sqrt(self) -> Self { Plain(self.0.sqrt()) }
    fn abs(self) -> Self { Plain(self.0.abs()) }
    fn add(self, other: Self) -> Self { Plain(self.0 + other.0) }
    fn sub(self, other: Self) -> Self { Plain(self.0 - other.0) }
    fn mul(self, other: Self) -> Self { Plain(self.0 * other.0) }
    fn div(self, other: Self) -> Self { Plain(self.0 / other.0) }
    fn pow(self, other: Self) -> Self { Plain(self.0.powf(other.0)) }
    fn duplicate(&self) -> Self { *self }
}

fn infix(data: &[u8], config: AstGenConfig) -> String {
    let gen = generate_from_bytes(data, config).unwrap();
    InfixPrinter::print(&gen.expr, gen.num_inputs, &spelling(&gen.expr))
}

fn depth(e: &SimpleExpr) -> usize {
    match e {
        Expr::Number(..) | Expr::Boolean(..) | Expr::Id(..) => 0,
        Expr::UnOp(_, _, a) => 1 + depth(a),
        Expr::BinOp(_, _, a, b) => 1 + depth(a).max(depth(b)),
        other => panic!("the generator does not make {:?}", other),
    }
}

fn variables(e: &SimpleExpr, into: &mut HashSet<String>) {
    match e {
        Expr::Id(_, name) => {
            into.insert(name.clone());
        }
        Expr::UnOp(_, _, a) => variables(a, into),
        Expr::BinOp(_, _, a, b) => {
            variables(a, into);
            variables(b, into);
        }
        _ => {}
    }
}

#[test]
fn test_generate_simple() {
    let config = AstGenConfig { max_depth: 3, max_variables: 2, ..Default::default() };

    // Test with deterministic bytes
    let data = b"test data for fuzzing expressions";

    match generate_from_bytes(data, config) {
        Ok(gen) => println!("Generated expression: {:?}, used vars: {:?}", gen.expr, gen.used_vars),
        Err(e) => println!("Generation failed: {:?}", e),
    }
}

#[test]
fn test_generate_multiple() {
    let config = AstGenConfig::default();

    // gen multiple expressions to test variety
    for i in 0..5 {
        let data = format!("test data {}", i).into_bytes();
        if let Ok(gen) = generate_from_bytes(&data, config.clone()) {
            println!("Expression {}: {:?}, used vars: {:?}", i, gen.expr, gen.used_vars);
        }
    }
}

#[test]
fn default_config() {
    let c = AstGenConfig::default();
    assert_eq!(c.max_depth, 5);
    assert_eq!(c.max_variables, 2);
    assert!(c.allow_division);
    assert!(c.allow_power);
    assert!(!c.allow_log);
}

#[test]
fn first_variable_is_x0() {
    let gen = generate_from_bytes(&[0, 0, 9], AstGenConfig::default()).unwrap();
    assert!(matches!(&gen.expr, Expr::Id((), name) if name == "x_0"));
    assert_eq!(gen.num_inputs, 1);
    assert!(gen.used_vars.contains(&0));
    assert_eq!(gen.used_vars.len(), 1);
    assert_eq!(InfixPrinter::print(&gen.expr, gen.num_inputs, &spelling(&gen.expr)), "x_0");
}

#[test]
fn running_dry_is_an_error() {
    let config = AstGenConfig::default();
    // nothing at all
    assert_eq!(generate_from_bytes(&[], config).err(), Some(GenerationError::Exhausted));
    // a leaf is chosen, and nothing says which
    assert_eq!(generate_from_bytes(&[0], config).err(), Some(GenerationError::Exhausted));
    // a variable is chosen with nothing left behind the choice
    assert_eq!(generate_from_bytes(&[0, 0], config).err(), Some(GenerationError::Exhausted));
    // a literal is chosen, and nothing says which
    assert_eq!(generate_from_bytes(&[0, 2], config).err(), Some(GenerationError::Exhausted));
    // a drawn literal with seven bytes for its eight
    assert_eq!(
        generate_from_bytes(&[0, 2, 3, 1, 2, 3, 4, 5, 6, 7], config).err(),
        Some(GenerationError::Exhausted)
    );
    // a unary node without a byte for its operator
    assert_eq!(generate_from_bytes(&[1, 0, 2, 1], config).err(), Some(GenerationError::Exhausted));
    // a binary node without a byte for its operator
    assert_eq!(
        generate_from_bytes(&[2, 0, 2, 1, 0, 2, 1], config).err(),
        Some(GenerationError::Exhausted)
    );
}

#[test]
fn a_config_without_variables_is_refused() {
    let none = AstGenConfig { max_variables: 0, ..Default::default() };
    assert_eq!(
        generate_from_bytes(&[0, 0, 9], none).err(),
        Some(GenerationError::InvalidConfig)
    );
    let many = AstGenConfig { max_variables: usize::MAX, ..Default::default() };
    assert_eq!(
        generate_from_bytes(&[0, 0, 9], many).err(),
        Some(GenerationError::InvalidConfig)
    );
}

#[test]
fn fixed_literals() {
    let config = AstGenConfig::default();
    for (choice, value) in [(0u8, 0.0f64), (1, 1.0), (2, 2.0), (5, 0.0), (7, 2.0)] {
        let gen = generate_from_bytes(&[0, 2, choice], config).unwrap();
        assert!(matches!(gen.expr, Expr::Number((), bits) if bits == value.to_bits()));
        assert_eq!(gen.num_inputs, 0);
        assert!(gen.used_vars.is_empty());
    }
}

fn drawn_literal(choice: u8, raw: f64) -> f64 {
    let mut data = vec![0, 2, choice];
    data.extend_from_slice(&raw.to_le_bytes());
    match generate_from_bytes(&data, AstGenConfig::default()).unwrap().expr {
        Expr::Number((), bits) => f64::from_bits(bits),
        other => panic!("not a literal: {:?}", other),
    }
}

#[test]
fn clamped_literals() {
    assert_eq!(drawn_literal(3, 100.0), 10.0);
    assert_eq!(drawn_literal(3, -100.0), -10.0);
    assert_eq!(drawn_literal(3, 3.25), 3.25);
    assert_eq!(drawn_literal(3, -3.25), -3.25);
    assert_eq!(drawn_literal(3, f64::INFINITY), 10.0);
    assert_eq!(drawn_literal(3, f64::NEG_INFINITY), -10.0);
    assert_eq!(drawn_literal(3, 10.0), 10.0);
    assert_eq!(drawn_literal(3, -0.0).to_bits(), (-0.0f64).to_bits());
    // bytes that spell no number give 1
    assert_eq!(drawn_literal(3, f64::NAN), 1.0);
    assert_eq!(drawn_literal(3, -f64::NAN), 1.0);
    assert_eq!(drawn_literal(3, f64::from_bits(0x7FF0_0000_0000_0001)), 1.0);
    for raw in [1e-300, -1e-300, 9.999999, 10.000001, -7.5, 1e300] {
        assert_eq!(drawn_literal(3, raw), raw.clamp(-10.0, 10.0));
    }
}

#[test]
fn positive_literals() {
    assert_eq!(drawn_literal(4, -0.01), 0.1);
    assert_eq!(drawn_literal(4, 0.0), 0.1);
    assert_eq!(drawn_literal(4, -0.0), 0.1);
    assert_eq!(drawn_literal(4, -3.0), 3.0);
    assert_eq!(drawn_literal(4, 3.0), 3.0);
    assert_eq!(drawn_literal(4, 77.0), 5.0);
    assert_eq!(drawn_literal(4, f64::NEG_INFINITY), 5.0);
    assert_eq!(drawn_literal(4, f64::NAN), 1.0);
    assert_eq!(drawn_literal(4, f64::from_bits(0xFFFF_FFFF_FFFF_FFFF)), 1.0);
    for raw in [1e-300, -1e-300, 0.1, 0.0999, -4.999, 5.0001] {
        assert_eq!(drawn_literal(4, raw), raw.abs().clamp(0.1, 5.0));
    }
}

#[test]
fn a_drawn_literal_reads_its_bytes_least_significant_first() {
    // 0x3FF8000000000000 is 1.5
    let data = [0, 2, 3, 0, 0, 0, 0, 0, 0, 0xF8, 0x3F];
    match generate_from_bytes(&data, AstGenConfig::default()).unwrap().expr {
        Expr::Number((), bits) => assert_eq!(bits, 0x3FF8_0000_0000_0000),
        other => panic!("not a literal: {:?}", other),
    }
}

#[test]
fn binary_nodes() {
    let config = AstGenConfig::default();
    assert_eq!(infix(&[2, 0, 0, 0, 2, 2, 0], config), "(x_0 + 2)");
    assert_eq!(infix(&[2, 0, 0, 0, 2, 2, 1], config), "(x_0 - 2)");
    assert_eq!(infix(&[2, 0, 0, 0, 2, 2, 2], config), "(x_0 * 2)");
    assert_eq!(infix(&[2, 0, 0, 0, 2, 2, 3], config), "(x_0 / 2)");
    assert_eq!(infix(&[2, 0, 0, 0, 2, 2, 4], config), "(x_0 ^ 2)");
    // the choice is taken modulo the number of operators
    assert_eq!(infix(&[2, 0, 0, 0, 2, 2, 5], config), "(x_0 + 2)");
}

#[test]
fn only_enabled_binary_operators_are_chosen() {
    let no_div = AstGenConfig { allow_division: false, ..Default::default() };
    assert_eq!(infix(&[2, 0, 0, 0, 2, 1, 3], no_div), "(x_0 ^ 1)");
    assert_eq!(infix(&[2, 0, 0, 0, 2, 1, 4], no_div), "(x_0 + 1)");
    let no_pow = AstGenConfig { allow_power: false, ..Default::default() };
    assert_eq!(infix(&[2, 0, 0, 0, 2, 1, 3], no_pow), "(x_0 / 1)");
    assert_eq!(infix(&[2, 0, 0, 0, 2, 1, 4], no_pow), "(x_0 + 1)");
    let neither = AstGenConfig { allow_division: false, allow_power: false, ..Default::default() };
    assert_eq!(infix(&[2, 0, 0, 0, 2, 1, 2], neither), "(x_0 * 1)");
    assert_eq!(infix(&[2, 0, 0, 0, 2, 1, 3], neither), "(x_0 + 1)");
}

#[test]
fn unary_nodes() {
    let config = AstGenConfig::default();
    assert_eq!(infix(&[1, 0, 0, 0], config), "-(x_0)");
    assert_eq!(infix(&[1, 0, 0, 1], config), "sin(x_0)");
    assert_eq!(infix(&[1, 0, 0, 2], config), "cos(x_0)");
    assert_eq!(infix(&[1, 0, 0, 3], config), "exp(x_0)");
    assert_eq!(infix(&[1, 0, 0, 4], config), "sqrt(x_0)");
    assert_eq!(infix(&[1, 0, 0, 6], config), "abs(x_0)");
}

#[test]
fn the_square_root_stands_in_for_a_logarithm_that_is_not_allowed() {
    assert_eq!(infix(&[1, 0, 0, 5], AstGenConfig::default()), "sqrt(x_0)");
    let with_log = AstGenConfig { allow_log: true, ..Default::default() };
    assert_eq!(infix(&[1, 0, 0, 5], with_log), "ln(x_0)");
    assert_eq!(infix(&[1, 0, 0, 6], with_log), "abs(x_0)");
}

#[test]
fn variables_are_introduced_in_order_and_reused() {
    let config = AstGenConfig::default();
    // the second reference introduces x_1
    let gen = generate_from_bytes(&[2, 0, 0, 0, 1, 1, 2], config).unwrap();
    assert_eq!(InfixPrinter::print(&gen.expr, gen.num_inputs, &spelling(&gen.expr)), "(x_0 * x_1)");
    assert_eq!(gen.num_inputs, 2);
    assert_eq!(gen.used_vars, HashSet::from([0, 1]));
    // the second reference reuses x_0
    let gen = generate_from_bytes(&[2, 0, 0, 0, 1, 4, 3], config).unwrap();
    assert_eq!(InfixPrinter::print(&gen.expr, gen.num_inputs, &spelling(&gen.expr)), "(x_0 / x_0)");
    assert_eq!(gen.num_inputs, 1);
    assert_eq!(gen.used_vars, HashSet::from([0]));
}

#[test]
fn a_spent_budget_forces_reuse() {
    let one = AstGenConfig { max_variables: 1, ..Default::default() };
    let gen = generate_from_bytes(&[2, 0, 0, 0, 1, 2], one).unwrap();
    assert_eq!(InfixPrinter::print(&gen.expr, gen.num_inputs, &spelling(&gen.expr)), "(x_0 * x_0)");
    assert_eq!(gen.num_inputs, 1);

    // with three variables in use and none left, a byte picks the one to reuse
    let three = AstGenConfig { max_variables: 3, max_depth: 2, ..Default::default() };
    let data = [
        2, // binary
        2, // left: binary
        0, //   a variable, the first: x_0
        0, 2, //   a variable, new: 1 + 2 % 3 = 3 > 1, x_1
        0, //   +
        2, // right: binary
        1, 2, //   a variable, new: 1 + 2 % 3 = 3 > 2, x_2
        1, 7, //   a variable, reused: 7 % 3 = 1, x_1
        2, //   *
        1, // -
    ];
    let gen = generate_from_bytes(&data, three).unwrap();
    assert_eq!(InfixPrinter::print(&gen.expr, gen.num_inputs, &spelling(&gen.expr)), "((x_0 + x_1) - (x_2 * x_1))");
    assert_eq!(gen.num_inputs, 3);
    assert_eq!(gen.used_vars, HashSet::from([0, 1, 2]));
}

#[test]
fn a_wide_choice_reads_two_bytes_most_significant_first() {
    let wide = AstGenConfig { max_variables: 1000, ..Default::default() };
    // 1 + (0 * 256 + 0) % 1000 = 1: not above the one variable in use, so it is reused
    assert_eq!(infix(&[2, 0, 0, 0, 0, 0, 0, 0], wide), "(x_0 + x_0)");
    // 1 + (0 * 256 + 1) % 1000 = 2: a new variable
    assert_eq!(infix(&[2, 0, 0, 0, 0, 0, 1, 0], wide), "(x_0 + x_1)");
    // 1 + (3 * 256 + 232) % 1000 = 1: reused
    assert_eq!(infix(&[2, 0, 0, 0, 0, 3, 232, 0], wide), "(x_0 + x_0)");
    // 1 + (1 * 256 + 0) % 1000 = 257: a new variable
    assert_eq!(infix(&[2, 0, 0, 0, 0, 1, 0, 0], wide), "(x_0 + x_1)");
    // one byte where the choice needs two
    assert_eq!(
        generate_from_bytes(&[2, 0, 0, 0, 0, 7], wide).err(),
        Some(GenerationError::Exhausted)
    );
}

#[test]
fn at_the_depth_limit_only_leaves_are_made() {
    let flat = AstGenConfig { max_depth: 0, ..Default::default() };
    assert_eq!(infix(&[0, 9], flat), "x_0");
    assert_eq!(infix(&[2, 1], flat), "1");
    let shallow = AstGenConfig { max_depth: 1, ..Default::default() };
    assert_eq!(infix(&[2, 0, 2, 1, 0], shallow), "(x_0 + 1)");
}

#[test]
fn the_state_of_the_generator_is_carried_along() {
    let config = AstGenConfig::default();
    let data = [0u8, 0, 0, 1, 1, 9];
    let mut u = Unstructured::new(&data);
    let mut used = HashSet::new();
    let mut stack = Vec::new();
    let first = generate_expr_arbitrary(&mut u, &config, 0, &mut used, &mut stack).unwrap();
    assert!(matches!(&first, Expr::Id((), name) if name == "x_0"));
    assert_eq!(u.len(), 4);
    assert_eq!(stack, vec![0]);
    let second = generate_expr_arbitrary(&mut u, &config, 0, &mut used, &mut stack).unwrap();
    assert!(matches!(&second, Expr::Id((), name) if name == "x_1"));
    assert_eq!(u.len(), 1);
    assert_eq!(stack, vec![0, 1]);
    assert_eq!(used, HashSet::from([0, 1]));
}

/// A small generator of bytes for the tests that look at many inputs.
fn noise(seed: u64, len: usize) -> Vec<u8> {
    let mut state = seed.wrapping_mul(0x9E37_79B9_7F4A_7C15).wrapping_add(1);
    (0..len)
        .map(|_| {
            state = state.wrapping_mul(6364136223846793005).wrapping_add(1442695040888963407);
            (state >> 33) as u8
        })
        .collect()
}

#[test]
fn generated_expressions_keep_to_the_depth_limit() {
    for max_depth in 0..5 {
        let config = AstGenConfig { max_depth, max_variables: 3, ..Default::default() };
        let mut made = 0;
        for seed in 0..300 {
            if let Ok(gen) = generate_from_bytes(&noise(seed, 200), config) {
                assert!(depth(&gen.expr) <= max_depth);
                made += 1;
            }
        }
        assert!(made > 0);
    }
}

#[test]
fn generated_expressions_use_the_first_variables() {
    for max_variables in 1..5 {
        let config = AstGenConfig { max_depth: 4, max_variables, ..Default::default() };
        for seed in 0..300 {
            if let Ok(gen) = generate_from_bytes(&noise(seed, 200), config) {
                assert!(gen.num_inputs <= max_variables);
                assert_eq!(gen.used_vars, (0..gen.num_inputs).collect::<HashSet<usize>>());
                let mut names = HashSet::new();
                variables(&gen.expr, &mut names);
                let expected: HashSet<String> =
                    (0..gen.num_inputs).map(|i| format!("x_{}", i)).collect();
                assert_eq!(names, expected);
            }
        }
    }
}

#[test]
fn generated_expressions_have_a_value_at_every_point() {
    let config = AstGenConfig { max_depth: 4, max_variables: 3, allow_log: true, ..Default::default() };
    for seed in 0..300 {
        if let Ok(gen) = generate_from_bytes(&noise(seed, 200), config) {
            let point: Vec<Plain> = (0..gen.num_inputs).map(|i| Plain(1.0 + i as f64)).collect();
            assert!(apply(&gen.expr, gen.num_inputs, &point).is_ok());
        }
    }
}

#[test]
fn generation_is_a_function_of_the_bytes() {
    let config = AstGenConfig::default();
    for seed in 0..50 {
        let data = noise(seed, 120);
        let a = generate_from_bytes(&data, config).map(|g| format!("{:?}", g.expr));
        let b = generate_from_bytes(&data, config).map(|g| format!("{:?}", g.expr));
        assert_eq!(a, b);
    }
}

#[test]
fn operators_drawn_on_their_own() {
    let unary = [Op1::Neg, Op1::Sin, Op1::Cos, Op1::Exp, Op1::Sqrt, Op1::Abs, Op1::Tan];
    for byte in 0u8..30 {
        let data = [byte, 99];
        let mut u = Unstructured::new(&data);
        assert_eq!(arbitrary_op1(&mut u), Ok(unary[byte as usize % 7]));
        assert_eq!(u.len(), 1);
    }
    let binary = [Op2::Add, Op2::Sub, Op2::Mul, Op2::Div, Op2::Pow];
    for byte in 0u8..30 {
        let data = [byte, 99];
        let mut u = Unstructured::new(&data);
        assert_eq!(arbitrary_op2(&mut u), Ok(binary[byte as usize % 5]));
        assert_eq!(u.len(), 1);
    }
    let mut empty = Unstructured::new(&[]);
    assert_eq!(arbitrary_op1(&mut empty), Err(GenerationError::Exhausted));
    assert_eq!(arbitrary_op2(&mut empty), Err(GenerationError::Exhausted));
}

#[test]
fn what_follows_a_choice() {
    assert_eq!(literal(0, 77), 0.0f64.to_bits());
    assert_eq!(literal(1, 77), 1.0f64.to_bits());
    assert_eq!(literal(2, 77), 2.0f64.to_bits());
    assert_eq!(literal(3, 3.5f64.to_bits()), 3.5f64.to_bits());
    assert_eq!(literal(3, (-30.0f64).to_bits()), (-10.0f64).to_bits());
    assert_eq!(literal(4, (-3.5f64).to_bits()), 3.5f64.to_bits());
    assert_eq!(literal(4, 0.01f64.to_bits()), 0.1f64.to_bits());
    assert_eq!(literal(9, 30.0f64.to_bits()), 5.0f64.to_bits());
    assert_eq!(literal(3, f64::NAN.to_bits()), 1.0f64.to_bits());
    assert_eq!(literal(4, f64::NAN.to_bits()), 1.0f64.to_bits());

    let with_log = [Op1::Neg, Op1::Sin, Op1::Cos, Op1::Exp, Op1::Sqrt, Op1::Log, Op1::Abs];
    let without = [Op1::Neg, Op1::Sin, Op1::Cos, Op1::Exp, Op1::Sqrt, Op1::Sqrt, Op1::Abs];
    let any = [Op1::Neg, Op1::Sin, Op1::Cos, Op1::Exp, Op1::Sqrt, Op1::Abs, Op1::Tan];
    for choice in 0..7u32 {
        assert_eq!(unary_operator(choice, true), with_log[choice as usize]);
        assert_eq!(unary_operator(choice, false), without[choice as usize]);
        assert_eq!(any_unary_operator(choice), any[choice as usize]);
    }

    let all = AstGenConfig::default();
    let no_div = AstGenConfig { allow_division: false, ..all };
    let no_pow = AstGenConfig { allow_power: false, ..all };
    let ops = [Op2::Add, Op2::Sub, Op2::Mul, Op2::Div, Op2::Pow];
    for choice in 0..5u32 {
        assert_eq!(binary_operator(choice, &all), ops[choice as usize]);
        assert_eq!(any_binary_operator(choice), ops[choice as usize]);
    }
    assert_eq!(binary_operator(3, &no_div), Op2::Pow);
    assert_eq!(binary_operator(3, &no_pow), Op2::Div);
}

#[test]
fn trees_that_are_printed_alike_are_the_same() {
    let config = AstGenConfig { max_depth: 3, max_variables: 2, allow_log: true, ..Default::default() };
    let mut seen: HashMap<String, String> = HashMap::new();
    let mut made = 0;
    for seed in 0..2000 {
        if let Ok(gen) = generate_from_bytes(&noise(seed, 60), config) {
            let tree = format!("{:?}", gen.expr);
            let text = InfixPrinter::print(&gen.expr, 2, &spelling(&gen.expr));
            if text.contains("NaN") {
                continue;
            }
            made += 1;
            if let Some(other) = seen.insert(text, tree.clone()) {
                assert_eq!(other, tree);
            }
        }
    }
    assert!(made > 100);
    assert!(seen.len() > 50);
}

fn operators(e: &SimpleExpr, unary: &mut Vec<Op1>, binary: &mut Vec<Op2>, literals: &mut Vec<f64>) {
    match e {
        Expr::Number(_, bits) => literals.push(f64::from_bits(*bits)),
        Expr::UnOp(_, op, a) => {
            unary.push(*op);
            operators(a, unary, binary, literals);
        }
        Expr::BinOp(_, op, a, b) => {
            binary.push(*op);
            operators(a, unary, binary, literals);
            operators(b, unary, binary, literals);
        }
        _ => {}
    }
}

#[test]
fn generated_expressions_hold_only_what_is_allowed() {
    for (allow_division, allow_power, allow_log) in [
        (false, false, false),
        (true, false, false),
        (false, true, false),
        (false, false, true),
        (true, true, true),
    ] {
        let config = AstGenConfig { max_depth: 4, max_variables: 2, allow_division, allow_power, allow_log };
        let mut seen_pow = false;
        for seed in 0..400 {
            if let Ok(gen) = generate_from_bytes(&noise(seed, 200), config) {
                let (mut unary, mut binary, mut literals) = (vec![], vec![], vec![]);
                operators(&gen.expr, &mut unary, &mut binary, &mut literals);
                assert!(!unary.contains(&Op1::Tan));
                assert!(allow_log || !unary.contains(&Op1::Log));
                assert!(allow_division || !binary.contains(&Op2::Div));
                assert!(allow_power || !binary.contains(&Op2::Pow));
                seen_pow |= binary.contains(&Op2::Pow);
                for v in literals {
                    assert!(-10.0 <= v && v <= 10.0);
                }
            }
        }
        assert_eq!(seen_pow, allow_power);
    }
}
