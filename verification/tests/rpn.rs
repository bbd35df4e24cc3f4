use fuzz_core::ast_evaluator::MainBackend;
use fuzz_core::ast_expr::{Op1, Op2};
use fuzz_core::rpn_evaluator::{classify, evaluate_rpn, RpnError, RpnEvalType, RpnEvaluator, RpnToken};
use fuzz_core::test_definition::TestDefinition;
use fuzz_core::test_generator::{generate_random_test, token_class, TokenClass};

#[derive(Debug, Clone, Copy, PartialEq)]
struct Plain(f64);

impl MainBackend for Plain {
    type Model = ();
    fn model(&self) {}
    fn literal(_: u64) {}
    fn zero_model() {}
    fn one_model() {}
    fn unary(_: Op1, _: ()) {}
    fn binary(_: Op2, _: (), _: ()) {}
    fn from_f64(bits: u64) -> Self { Plain(f64::from_bits(bits)) }
    fn zero() -> Self { Plain(0.0) }
    fn one() -> Self { Plain(1.0) }
    fn neg(self) -> Self { Plain(-self.0) }
    fn sin(self) -> Self { Plain(self.0.sin()) }
    fn cos(self) -> Self { Plain(self.0.cos()) }
    fn tan(self) -> Self { Plain(self.0.tan()) }
    fn exp(self) -> Self { Plain(self.0.exp()) }
    fn log(self) -> Self { Plain(self.0.ln()) }
    fn sqrt(self) -> Self { Plain(self.0.sqrt()) }
    fn abs(self) -> Self { Plain(self.0.abs()) }
    fn add(self, other: Self) -> Self { Plain(self.0 + other.0) }
    fn sub(self, other: Self) -> Self { Plain(self.0 - other.0) }
    fn mul(self, other: Self) -> Self { Plain(self.0 * other.0) }
    fn div(self, other: Self) -> Self { Plain(self.0 / other.0) }
    fn pow(self, other: Self) -> Self { Plain(self.0.powf(other.0)) }
    fn duplicate(&self) -> Self { *self }
}

impl RpnEvalType for Plain {
    fn squared(_: ()) {}
    fn alike(_: (), _: ()) -> bool { true }
    fn const_2() -> Self { Plain(2.0) }
    fn fun_sin(self) -> Self { Plain(self.0.sin()) }
    fn fun_exp(self) -> Self { Plain(self.0.exp()) }
    fn fun_sqrt(self) -> Self { Plain(self.0.sqrt()) }
    fn op_add(self, other: Self) -> Self { Plain(self.0 + other.0) }
    fn op_mul(self, other: Self) -> Self { Plain(self.0 * other.0) }
    fn op_pow2(self) -> Self { Plain(self.0.powi(2)) }
    fn same(&self, other: &Self) -> bool { self.0 == other.0 }
}

fn tokens(text: &str) -> Vec<String> {
    text.split_whitespace().map(|t| t.to_string()).collect()
}

fn value(text: &str, x: f64, y: f64) -> Result<f64, RpnError> {
    evaluate_rpn(&tokens(text), &[Plain(x), Plain(y)]).map(|v| v.0)
}

#[test]
fn tokens_are_told_apart() {
    for (text, kind) in [
        ("x", RpnToken::X),
        ("y", RpnToken::Y),
        ("2", RpnToken::Two),
        ("sin", RpnToken::Sin),
        ("exp", RpnToken::Exp),
        ("sqrt", RpnToken::Sqrt),
        ("+", RpnToken::Add),
        ("*", RpnToken::Mul),
        ("pow", RpnToken::Pow),
        ("", RpnToken::Unknown),
        ("X", RpnToken::Unknown),
        ("cos", RpnToken::Unknown),
        ("3", RpnToken::Unknown),
        ("-", RpnToken::Unknown),
    ] {
        assert_eq!(classify(text), kind);
    }
}

#[test]
fn values_in_reverse_polish_notation() {
    assert_eq!(value("x", 3.0, 4.0), Ok(3.0));
    assert_eq!(value("y", 3.0, 4.0), Ok(4.0));
    assert_eq!(value("2", 3.0, 4.0), Ok(2.0));
    assert_eq!(value("x y +", 3.0, 4.0), Ok(7.0));
    assert_eq!(value("x y *", 3.0, 4.0), Ok(12.0));
    assert_eq!(value("x 2 pow", 3.0, 4.0), Ok(9.0));
    assert_eq!(value("x sin", 3.0, 4.0), Ok(3.0f64.sin()));
    assert_eq!(value("y exp", 3.0, 4.0), Ok(4.0f64.exp()));
    assert_eq!(value("y sqrt", 3.0, 4.0), Ok(2.0));
    assert_eq!(value("x 2 pow y 2 * +", 3.0, 4.0), Ok(17.0));
    assert_eq!(value("x y 2 * + sqrt", 1.0, 4.0), Ok(3.0));
    // the exponent may be computed, as long as it is two
    assert_eq!(value("x y pow", 3.0, 2.0), Ok(9.0));
    // what is left below the top is not looked at
    assert_eq!(value("x y", 3.0, 4.0), Ok(4.0));
}

#[test]
fn tokens_without_a_value() {
    assert_eq!(value("", 3.0, 4.0), Err(RpnError::EmptyStack));
    assert_eq!(value("sin", 3.0, 4.0), Err(RpnError::MissingOperand(RpnToken::Sin)));
    assert_eq!(value("exp", 3.0, 4.0), Err(RpnError::MissingOperand(RpnToken::Exp)));
    assert_eq!(value("sqrt", 3.0, 4.0), Err(RpnError::MissingOperand(RpnToken::Sqrt)));
    assert_eq!(value("+", 3.0, 4.0), Err(RpnError::MissingOperand(RpnToken::Add)));
    assert_eq!(value("x +", 3.0, 4.0), Err(RpnError::MissingOperand(RpnToken::Add)));
    assert_eq!(value("x *", 3.0, 4.0), Err(RpnError::MissingOperand(RpnToken::Mul)));
    assert_eq!(value("pow", 3.0, 4.0), Err(RpnError::MissingExponent));
    assert_eq!(value("2 pow", 3.0, 4.0), Err(RpnError::MissingBase));
    assert_eq!(value("x y pow", 3.0, 4.0), Err(RpnError::UnsupportedPower));
    assert_eq!(value("x cos", 3.0, 4.0), Err(RpnError::UnknownToken));
    // the first error ends the evaluation
    assert_eq!(value("x + cos", 3.0, 4.0), Err(RpnError::MissingOperand(RpnToken::Add)));
    assert_eq!(value("cos +", 3.0, 4.0), Err(RpnError::UnknownToken));
    assert_eq!(
        evaluate_rpn(&tokens("x"), &[Plain(1.0)]).map(|v| v.0),
        Err(RpnError::InsufficientInputs)
    );
    assert_eq!(
        evaluate_rpn::<Plain>(&tokens("2"), &[]).map(|v| v.0),
        Err(RpnError::InsufficientInputs)
    );
}

#[test]
fn errors_in_words() {
    assert_eq!(RpnError::InsufficientInputs.message(), "Insufficient inputs");
    assert_eq!(RpnError::MissingOperand(RpnToken::Sin).message(), "RPN: Missing operand for sin");
    assert_eq!(RpnError::MissingOperand(RpnToken::Exp).message(), "RPN: Missing operand for exp");
    assert_eq!(RpnError::MissingOperand(RpnToken::Sqrt).message(), "RPN: Missing operand for sqrt");
    assert_eq!(RpnError::MissingOperand(RpnToken::Add).message(), "RPN: Missing operand for +");
    assert_eq!(RpnError::MissingOperand(RpnToken::Mul).message(), "RPN: Missing operand for *");
    assert_eq!(RpnError::MissingExponent.message(), "RPN: Missing exponent for pow");
    assert_eq!(RpnError::MissingBase.message(), "RPN: Missing base for pow");
    assert_eq!(
        RpnError::UnsupportedPower.message(),
        "RPN: Only integer power 2 supported for pow token."
    );
    assert_eq!(RpnError::UnknownToken.message(), "RPN: Unknown token");
    assert_eq!(
        RpnError::EmptyStack.message(),
        "RPN: Stack length is not 1 at end of evaluation"
    );
}

fn definition(text: &str) -> TestDefinition {
    TestDefinition {
        name: "by hand".to_string(),
        description: "a test".to_string(),
        expression_rpn: tokens(text),
        num_inputs: 2,
        num_outputs: 1,
    }
}

#[test]
fn the_evaluator_of_a_test_case() {
    let evaluator = RpnEvaluator { definition: definition("x y * 2 +") };
    assert_eq!(evaluator.num_inputs(), 2);
    assert_eq!(evaluator.num_outputs(), 1);
    assert_eq!(evaluator.eval_expr(&[Plain(3.0), Plain(4.0)]), Plain(14.0));
    assert_eq!(evaluator.compute(&[Plain(3.0), Plain(4.0)]), Ok(vec![Plain(14.0)]));
    let copy = evaluator.clone();
    assert_eq!(copy.definition.expression_rpn, evaluator.definition.expression_rpn);
    assert_eq!(copy.definition.name, "by hand");
    assert_eq!(copy.definition.description, "a test");

    // zero stands in for a value that the tokens do not have
    let broken = RpnEvaluator { definition: definition("x +") };
    assert_eq!(broken.eval_expr(&[Plain(3.0), Plain(4.0)]), Plain(0.0));
    assert_eq!(
        broken.compute(&[Plain(3.0), Plain(4.0)]),
        Err(RpnError::MissingOperand(RpnToken::Add))
    );
}

#[test]
fn the_class_of_the_next_token() {
    assert_eq!(token_class(0, true), TokenClass::Operand);
    assert_eq!(token_class(0, false), TokenClass::Operand);
    assert_eq!(token_class(1, true), TokenClass::Unary);
    assert_eq!(token_class(1, false), TokenClass::Unary);
    assert_eq!(token_class(2, true), TokenClass::Binary);
    assert_eq!(token_class(2, false), TokenClass::Unary);
    assert_eq!(token_class(9, true), TokenClass::Binary);
}

#[test]
fn random_test_cases_are_balanced() {
    let mut rng = rand::thread_rng();
    let mut distinct = std::collections::HashSet::new();
    for _ in 0..500 {
        let def = generate_random_test(&mut rng);
        assert_eq!(def.num_inputs, 2);
        assert_eq!(def.num_outputs, 1);
        assert_eq!(def.description, "Randomly generated RPN expression.");
        assert_eq!(def.name, format!("AutoTest_{}", def.expression_rpn.join("_")));
        assert!(def.expression_rpn.len() >= 3);
        assert!(def.expression_rpn.len() <= 2 * 7 + 1);
        assert!(matches!(def.expression_rpn[0].as_str(), "x" | "y" | "2"));

        let mut depth: usize = 0;
        for token in &def.expression_rpn {
            match token.as_str() {
                "x" | "y" | "2" => depth += 1,
                "sin" | "exp" | "sqrt" => assert!(depth >= 1),
                "+" | "*" | "pow" => {
                    assert!(depth >= 2);
                    depth -= 1;
                }
                other => panic!("unknown token {}", other),
            }
        }
        assert_eq!(depth, 1);

        match evaluate_rpn(&def.expression_rpn, &[Plain(1.5), Plain(2.0)]) {
            Ok(_) | Err(RpnError::UnsupportedPower) => {}
            Err(e) => panic!("{:?} in {:?}", e, def.expression_rpn),
        }
        distinct.insert(def.name);
    }
    assert!(distinct.len() > 50);
}

#[test]
fn tokens_in_infix_form() {
    let two = std::collections::HashMap::from([(2.0f64.to_bits(), "2".to_string())]);
    let text = |tokens: &str| RpnEvaluator { definition: definition(tokens) }.expr_string(&two);
    assert_eq!(text("x"), "x");
    assert_eq!(text("x y +"), "(x + y)");
    assert_eq!(text("x 2 pow y sin *"), "((x ^ 2) * sin(y))");
    assert_eq!(text("x y * exp sqrt"), "sqrt(exp((x * y)))");
    assert_eq!(text("2 2 pow"), "(2 ^ 2)");
    assert_eq!(text("x y pow"), "<error: RPN: Only integer power 2 supported for pow token.>");
    assert_eq!(text("x +"), "<error: RPN: Missing operand for +>");
    assert_eq!(text(""), "<error: RPN: Stack length is not 1 at end of evaluation>");
}
