use std::collections::HashMap;
use fuzz_core::ast_evaluator::InfixPrinter;
use fuzz_core::ast_expr::Expr;
use fuzz_core::ast_generator::AstGenConfig;
use fuzz_core::fuzz_harness::{
    admit_point, escalate, generation_window, get_ast_config, get_fuzz_config, plan_iteration,
    sanitize, Action, Admission, Band, DomainPolicy, FuzzConfig, HarnessMode,
};
use fuzz_core::gt_calculators::{
    GradientStep, GroundTruthError, OutputSummary, PyTorchGroundTruthCalculator,
};
use fuzz_core::input_decoder::{
    decode_point, DecodeError, FuzzInputDecoder, GeneralInputDecoder, TwoInputDecoder,
};
use fuzz_core::oracles::{Figures, Mismatch, OracleError, OracleKind};
use fuzz_core::text::{decimal_string, eq_ignore_case, parse_flag, parse_number, same_text};

/// The literals of an expression, written as doubles are.
fn spelling<T>(e: &Expr<T>) -> HashMap<u64, String> {
    e.literals().into_iter().map(|b| (b, format!("{}", f64::from_bits(b)))).collect()
}

fn le(values: &[f64]) -> Vec<u8> {
    values.iter().flat_map(|v| v.to_le_bytes()).collect()
}

fn floats(bits: &[u64]) -> Vec<f64> {
    bits.iter().map(|b| f64::from_bits(*b)).collect()
}

#[test]
fn two_inputs_are_decoded() {
    let decoder = TwoInputDecoder;
    assert_eq!(decoder.num_inputs(), 2);
    assert_eq!(decoder.min_bytes(), 16);
    let mut data = le(&[1.5, -2.25]);
    data.extend_from_slice(b"more");
    assert_eq!(floats(&decoder.decode(&data).unwrap()), vec![1.5, -2.25]);
    assert_eq!(decoder.decode(&data[..15]), Err(DecodeError::NotEnoughData));
    assert_eq!(decoder.decode(&[]), Err(DecodeError::NotEnoughData));
}

#[test]
fn any_number_of_inputs_is_decoded() {
    let values = [0.0, -0.0, 1e300, -1e-300, f64::INFINITY, 3.0];
    let data = le(&values);
    for n in 0..=values.len() {
        let decoder = GeneralInputDecoder { input_length: n };
        assert_eq!(decoder.num_inputs(), n);
        assert_eq!(decoder.min_bytes(), 8 * n);
        let point = decoder.decode(&data).unwrap();
        assert_eq!(point.len(), n);
        for (bits, value) in point.iter().zip(values) {
            assert_eq!(*bits, value.to_bits());
        }
    }
    let decoder = GeneralInputDecoder { input_length: 7 };
    assert_eq!(decoder.decode(&data), Err(DecodeError::NotEnoughData));
    let decoder = GeneralInputDecoder { input_length: usize::MAX };
    assert_eq!(decoder.min_bytes(), usize::MAX);
    assert_eq!(decoder.decode(&data), Err(DecodeError::NotEnoughData));
}

#[test]
fn coordinates_are_eight_bytes_apart() {
    let data: Vec<u8> = (1..=16).collect();
    assert_eq!(
        decode_point(&data, 2).unwrap(),
        vec![0x0807_0605_0403_0201, 0x100F_0E0D_0C0B_0A09]
    );
}

#[test]
fn numbers_in_settings() {
    assert_eq!(parse_number("0"), Some(0));
    assert_eq!(parse_number("7"), Some(7));
    assert_eq!(parse_number("+7"), Some(7));
    assert_eq!(parse_number("007"), Some(7));
    assert_eq!(parse_number("1905"), Some(1905));
    assert_eq!(parse_number(&usize::MAX.to_string()), Some(usize::MAX));
    assert_eq!(parse_number("18446744073709551616"), None);
    assert_eq!(parse_number("99999999999999999999999"), None);
    for bad in ["", "+", "-1", "1 ", " 1", "1.0", "one", "1e3", "++1", "0x10", "１"] {
        assert_eq!(parse_number(bad), None, "{:?}", bad);
        assert_eq!(bad.parse::<usize>().ok(), None, "{:?}", bad);
    }
    for good in ["0", "+0", "42", "+42", "000", "18446744073709551615"] {
        assert_eq!(parse_number(good), good.parse::<usize>().ok(), "{:?}", good);
    }
}

#[test]
fn flags_in_settings() {
    assert_eq!(parse_flag("true"), Some(true));
    assert_eq!(parse_flag("TRUE"), Some(true));
    assert_eq!(parse_flag("False"), Some(false));
    for bad in ["", "1", "0", "yes", "tru", "truee", " true"] {
        assert_eq!(parse_flag(bad), None);
    }
}

#[test]
fn texts_are_compared() {
    assert!(eq_ignore_case("Continuous", "cONTINUOUS"));
    assert!(eq_ignore_case("rev_fwd", "REV_FWD"));
    assert!(eq_ignore_case("", ""));
    assert!(!eq_ignore_case("rev_fwd", "rev-fwd"));
    assert!(!eq_ignore_case("a", "ab"));
    // only the letters A to Z have a lower case here
    assert!(!eq_ignore_case("@", "`"));
    assert!(!eq_ignore_case("[", "{"));
    assert!(!eq_ignore_case("Ä", "ä"));
    for (a, b) in [("Ab1_", "aB1_"), ("x", "y"), ("Z", "z"), ("K", "k"), ("straße", "STRASSE")] {
        assert_eq!(eq_ignore_case(a, b), a.eq_ignore_ascii_case(b));
    }
    assert!(same_text("pow", "pow"));
    assert!(!same_text("pow", "Pow"));
    assert!(!same_text("pow", "po"));
}

#[test]
fn the_settings_of_a_run() {
    let c = get_fuzz_config(None, None, None);
    assert_eq!(c.mode, HarnessMode::PanicOnFirstError);
    assert_eq!(c.num_generated_tests, 1);
    assert_eq!(c.oracle_selection, "all");

    let c = get_fuzz_config(Some("Continuous"), Some("12"), Some("rev_gt"));
    assert_eq!(c.mode, HarnessMode::Continuous);
    assert_eq!(c.num_generated_tests, 12);
    assert_eq!(c.oracle_selection, "rev_gt");

    let c = get_fuzz_config(Some("anything"), Some("many"), Some(""));
    assert_eq!(c.mode, HarnessMode::PanicOnFirstError);
    assert_eq!(c.num_generated_tests, 1);
    assert_eq!(c.oracle_selection, "");

    assert_eq!(get_fuzz_config(None, Some("0"), None).num_generated_tests, 1);
    assert_eq!(get_fuzz_config(None, Some("-3"), None).num_generated_tests, 1);
}

#[test]
fn the_settings_of_the_generator() {
    let c = get_ast_config(None, None, None, None, None);
    assert_eq!(c.max_depth, 4);
    assert_eq!(c.max_variables, 2);
    assert!(c.allow_division);
    assert!(c.allow_power);
    assert!(!c.allow_log);

    let c = get_ast_config(Some("6"), Some("false"), Some("FALSE"), Some("True"), Some("3"));
    assert_eq!(c.max_depth, 6);
    assert_eq!(c.max_variables, 3);
    assert!(!c.allow_division);
    assert!(!c.allow_power);
    assert!(c.allow_log);

    let c = get_ast_config(Some("deep"), Some("no"), Some("0"), Some("1"), Some("2.5"));
    assert_eq!(c.max_depth, 4);
    assert_eq!(c.max_variables, 2);
    assert!(c.allow_division);
    assert!(c.allow_power);
    assert!(!c.allow_log);
}

fn policy(max: f64, positive_only: bool) -> DomainPolicy {
    let band = Band { max_magnitude: max.to_bits(), positive_only };
    DomainPolicy { first: band, others: band }
}

#[test]
fn the_first_coordinate_has_a_band_of_its_own() {
    let bits = |values: &[f64]| values.iter().map(|v| v.to_bits()).collect::<Vec<u64>>();
    let p = DomainPolicy {
        first: Band { max_magnitude: 1e10f64.to_bits(), positive_only: true },
        others: Band { max_magnitude: 100.0f64.to_bits(), positive_only: false },
    };
    assert!(sanitize(&bits(&[5e9, -100.0, 0.0, 99.0]), &p));
    assert!(!sanitize(&bits(&[5e9, 100.5]), &p));
    assert!(!sanitize(&bits(&[5e9, 1.0, -101.0]), &p));
    assert!(!sanitize(&bits(&[0.0, 1.0]), &p));
    assert!(!sanitize(&bits(&[-1.0, 1.0]), &p));
    assert!(!sanitize(&bits(&[2e10, 1.0]), &p));
    assert!(!sanitize(&bits(&[1.0, f64::NAN]), &p));
}

#[test]
fn points_outside_the_domain_are_rejected() {
    let bits = |values: &[f64]| values.iter().map(|v| v.to_bits()).collect::<Vec<u64>>();
    let wide = policy(1e10, false);
    assert!(sanitize(&bits(&[]), &wide));
    assert!(sanitize(&bits(&[0.0, -5.0, 1e10, -1e10]), &wide));
    assert!(!sanitize(&bits(&[0.0, 1.0000001e10]), &wide));
    assert!(!sanitize(&bits(&[-1.0000001e10, 0.0]), &wide));
    assert!(!sanitize(&bits(&[1.0, f64::NAN]), &wide));
    assert!(!sanitize(&bits(&[f64::INFINITY]), &wide));
    assert!(!sanitize(&bits(&[f64::NEG_INFINITY]), &wide));
    let positive = policy(100.0, true);
    assert!(sanitize(&bits(&[1.0, 100.0, 5e-324]), &positive));
    assert!(!sanitize(&bits(&[1.0, 0.0]), &positive));
    assert!(!sanitize(&bits(&[1.0, -0.0]), &positive));
    assert!(!sanitize(&bits(&[-1.0]), &positive));
    assert!(!sanitize(&bits(&[100.5]), &positive));
}

#[test]
fn candidates_start_32_bytes_apart() {
    let rest: Vec<u8> = (0..100).collect();
    assert_eq!(generation_window(&rest, 0), &rest[..]);
    assert_eq!(generation_window(&rest, 1), &rest[32..]);
    assert_eq!(generation_window(&rest, 3), &rest[96..]);
    // beyond the end the whole rest is used again
    assert_eq!(generation_window(&rest, 4), &rest[..]);
    assert_eq!(generation_window(&rest, usize::MAX), &rest[..]);
    assert_eq!(generation_window(&rest[..32], 1), &rest[..32]);
    assert_eq!(generation_window(&[], 0), &[] as &[u8]);
}

fn config(tests: usize) -> FuzzConfig {
    FuzzConfig {
        mode: HarnessMode::PanicOnFirstError,
        num_generated_tests: tests,
        oracle_selection: "all".to_string(),
    }
}

#[test]
fn an_iteration_needs_a_point() {
    let ast = AstGenConfig::default();
    let wide = policy(1e10, false);
    assert!(plan_iteration(&[], &config(1), &ast, &wide).is_none());
    assert!(plan_iteration(&le(&[1.0])[..], &config(1), &ast, &wide).is_none());
    assert!(plan_iteration(&le(&[1.0, 2.0])[..15], &config(1), &ast, &wide).is_none());
    assert!(plan_iteration(&le(&[1.0, f64::NAN]), &config(1), &ast, &wide).is_none());
    assert!(plan_iteration(&le(&[1.0, 1e11]), &config(1), &ast, &wide).is_none());
    assert!(plan_iteration(&le(&[1.0, -2.0]), &config(1), &ast, &policy(1e10, true)).is_none());
    let it = plan_iteration(&le(&[1.0, 2.0]), &config(1), &ast, &wide).unwrap();
    assert_eq!(floats(&it.inputs), vec![1.0, 2.0]);
    assert!(it.programs.is_empty());
}

#[test]
fn programs_without_variables_are_not_run() {
    let ast = AstGenConfig::default();
    let wide = policy(1e10, false);
    // the literal 1
    let mut data = le(&[1.0, 2.0]);
    data.extend_from_slice(&[0, 2, 1]);
    let it = plan_iteration(&data, &config(1), &ast, &wide).unwrap();
    assert!(it.programs.is_empty());
    // 1 + 2
    let mut data = le(&[1.0, 2.0]);
    data.extend_from_slice(&[2, 0, 2, 1, 0, 2, 2, 0]);
    let it = plan_iteration(&data, &config(3), &ast, &wide).unwrap();
    assert!(it.programs.is_empty());
    // x_0 + 2
    let mut data = le(&[1.0, 2.0]);
    data.extend_from_slice(&[2, 0, 0, 0, 2, 2, 0]);
    let it = plan_iteration(&data, &config(1), &ast, &wide).unwrap();
    assert_eq!(it.programs.len(), 1);
    assert_eq!(it.programs[0].num_inputs, 1);
    assert_eq!(InfixPrinter::print(&it.programs[0].expr, 1, &spelling(&it.programs[0].expr)), "(x_0 + 2)");
}

#[test]
fn every_candidate_has_its_window() {
    let ast = AstGenConfig::default();
    let wide = policy(1e10, false);
    let mut data = le(&[1.0, 2.0]);
    // candidate 0: x_0 + 2
    let mut rest = vec![2u8, 0, 0, 0, 2, 2, 0];
    rest.resize(32, 0);
    // candidate 1: the literal 1, which is not run
    rest.extend_from_slice(&[0, 2, 1]);
    rest.resize(64, 0);
    // candidate 2: sin(x_0)
    rest.extend_from_slice(&[1, 0, 0, 1]);
    data.extend_from_slice(&rest);

    let it = plan_iteration(&data, &config(3), &ast, &wide).unwrap();
    let texts: Vec<String> =
        it.programs.iter().map(|p| InfixPrinter::print(&p.expr, p.num_inputs, &spelling(&p.expr))).collect();
    assert_eq!(texts, vec!["(x_0 + 2)", "sin(x_0)"]);

    // candidates 3 and 4 start beyond the end and read the whole rest again
    let it = plan_iteration(&data, &config(5), &ast, &wide).unwrap();
    let texts: Vec<String> =
        it.programs.iter().map(|p| InfixPrinter::print(&p.expr, p.num_inputs, &spelling(&p.expr))).collect();
    assert_eq!(texts, vec!["(x_0 + 2)", "sin(x_0)", "(x_0 + 2)", "(x_0 + 2)"]);
    for p in &it.programs {
        assert!(p.num_inputs >= 1 && p.num_inputs <= it.inputs.len());
    }
}

#[test]
fn a_generator_that_allows_no_variable_runs_nothing() {
    let none = AstGenConfig { max_variables: 0, ..Default::default() };
    let it = plan_iteration(&[0, 0, 9], &config(2), &none, &policy(1e10, false)).unwrap();
    assert!(it.inputs.is_empty());
    assert!(it.programs.is_empty());
}

#[test]
fn points_and_functions_must_fit() {
    assert!(matches!(admit_point(2, 2), Ok(Admission::Run)));
    assert!(matches!(admit_point(1, 1), Ok(Admission::Run)));
    assert!(matches!(admit_point(0, 0), Ok(Admission::Skip)));
    assert!(matches!(admit_point(1, 2), Err(OracleError::ArityMismatch { expected: 2, given: 1 })));
    assert!(matches!(admit_point(3, 2), Err(OracleError::ArityMismatch { expected: 2, given: 3 })));
    assert!(matches!(admit_point(0, 2), Err(OracleError::ArityMismatch { expected: 2, given: 0 })));
    assert!(matches!(admit_point(2, 0), Err(OracleError::ArityMismatch { expected: 0, given: 2 })));
}

fn failure() -> Result<(), OracleError> {
    Err(OracleError::Failed(Mismatch {
        kind: OracleKind::ReverseVsForward,
        value_name: "Reverse AD".to_string(),
        reference_name: "Forward AD".to_string(),
        index: 0,
        inputs: vec![1.0f64.to_bits()],
        value: 2.0f64.to_bits(),
        reference: 1.0f64.to_bits(),
        abs_diff: 1.0f64.to_bits(),
        rel_diff: 1.0f64.to_bits(),
        percent: 100.0f64.to_bits(),
        threshold: 0.5f64.to_bits(),
        abs_tolerance: 0.25f64.to_bits(),
        scaled_rel: 0.5f64.to_bits(),
    }))
}

fn written() -> Figures {
    Figures {
        inputs: "[1.0]".to_string(),
        value: "2.0000000000e0".to_string(),
        reference: "1.0000000000e0".to_string(),
        abs_diff: "1.0000000000e0".to_string(),
        rel_diff: "1.0000000000e0".to_string(),
        percent: "100".to_string(),
        threshold: "5.0000000000e-1".to_string(),
        abs_tolerance: "2.5000000000e-1".to_string(),
        scaled_rel: "5.0000000000e-1".to_string(),
    }
}

#[test]
fn the_run_mode_decides_what_follows_a_failure() {
    let f = written();
    assert!(matches!(escalate(HarnessMode::PanicOnFirstError, &Ok(()), &f), Action::Proceed));
    assert!(matches!(escalate(HarnessMode::Continuous, &Ok(()), &f), Action::Proceed));
    let text = "Oracle check failed for inputs [1.0]:\n\
                Reverse vs Forward failed! Gradients differ. (Hybrid Tolerance Check)\n\
                Rev: 2.0000000000e0, Fwd: 1.0000000000e0\n\
                Absolute Diff: 1.0000000000e0\n\
                Relative Diff: 1.0000000000e0 (100%)\n\
                Tolerance Threshold: 5.0000000000e-1 (max of Abs:2.5000000000e-1 or Rel:5.0000000000e-1)";
    match escalate(HarnessMode::PanicOnFirstError, &failure(), &f) {
        Action::Abort(message) => assert_eq!(message, text),
        other => panic!("{:?}", other),
    }
    match escalate(HarnessMode::Continuous, &failure(), &f) {
        Action::Report(message) => assert_eq!(message, text),
        other => panic!("{:?}", other),
    }
    match escalate(HarnessMode::Continuous, &Err(OracleError::DimensionMismatch), &Figures::blank()) {
        Action::Report(message) => {
            assert_eq!(message, "Engine error: AD derivative dimension mismatch!")
        }
        other => panic!("{:?}", other),
    }
    match escalate(
        HarnessMode::PanicOnFirstError,
        &Err(OracleError::ArityMismatch { expected: 2, given: 1 }),
        &Figures::blank(),
    ) {
        Action::Abort(message) => assert_eq!(message, "Input length mismatch: expected 2, got 1"),
        other => panic!("{:?}", other),
    }
}

#[test]
fn after_the_forward_pass() {
    let calc = PyTorchGroundTruthCalculator;
    assert_eq!(calc.name(), "PyTorch");
    let summary = |count, elements, requires_grad| OutputSummary { count, elements, requires_grad };
    assert!(matches!(
        calc.after_forward(&summary(0, 1, true), 2),
        GradientStep::Reject(GroundTruthError::NoOutput)
    ));
    assert!(matches!(
        calc.after_forward(&summary(1, 4, true), 2),
        GradientStep::Reject(GroundTruthError::NotScalar)
    ));
    assert!(matches!(
        calc.after_forward(&summary(1, 0, false), 2),
        GradientStep::Reject(GroundTruthError::NotScalar)
    ));
    match calc.after_forward(&summary(1, 1, false), 3) {
        GradientStep::Constant(jacobian) => assert_eq!(jacobian, vec![0.0f64.to_bits(); 3]),
        other => panic!("{:?}", other),
    }
    assert!(matches!(calc.after_forward(&summary(2, 1, true), 3), GradientStep::Backward));
    assert_eq!(GroundTruthError::NoOutput.message(), "PyTorch function returned no output.");
    assert_eq!(
        GroundTruthError::NotScalar.message(),
        "PyTorch output is not a scalar, skipping derivative calculation."
    );
}

#[test]
fn an_input_without_a_gradient_has_the_derivative_zero() {
    let calc = PyTorchGroundTruthCalculator;
    let stored = vec![Some(2.5f64.to_bits()), None, Some((-0.0f64).to_bits()), None];
    assert_eq!(
        calc.gradients(&stored),
        vec![2.5f64.to_bits(), 0.0f64.to_bits(), (-0.0f64).to_bits(), 0.0f64.to_bits()]
    );
    assert_eq!(calc.gradients(&vec![]), Vec::<u64>::new());
}

#[test]
fn written_numbers_are_read_back() {
    for n in [0usize, 1, 9, 10, 99, 100, 12345, usize::MAX - 1, usize::MAX] {
        assert_eq!(parse_number(&decimal_string(n as u64)), Some(n));
    }
}
