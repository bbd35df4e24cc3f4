use fuzz_core::fuzz_harness::HarnessMode;
use fuzz_core::oracles::tolerance::{bounds, hybrid_check, threshold};
use fuzz_core::oracles::{
    judge, ADType, ADVsGroundTruthCheck, Arithmetic, Deviation, EngineResults,
    EvalexprVsPyTorchCheck, Figures, FuzzingOracles, GroundTruth, Mismatch, Oracle, OracleError,
    OracleKind, Precedence, ReverseVsForwardCheck, ToleranceOutcome, ABS_TOLERANCE, REL_TOLERANCE,
};

/// What arithmetic says of a value and a reference value.
fn deviation(value: f64, reference: f64) -> Deviation {
    let diff = (value - reference).abs();
    let rel = diff / reference.abs();
    Deviation {
        abs_diff: diff.to_bits(),
        scaled_rel: (reference.abs() * f64::from_bits(REL_TOLERANCE)).to_bits(),
        rel_diff: rel.to_bits(),
        percent: (rel * 100.0).to_bits(),
        abs_percent: (diff * 100.0).to_bits(),
    }
}

/// The figures of a mismatch, written out as doubles are.
fn figures(m: &Mismatch) -> Figures {
    let f = |bits: u64| f64::from_bits(bits);
    let wide = |bits: u64| match m.kind {
        OracleKind::Symbolic => format!("{}", f(bits)),
        _ => format!("{:.10e}", f(bits)),
    };
    Figures {
        inputs: format!("{:?}", m.inputs.iter().map(|b| f(*b)).collect::<Vec<f64>>()),
        value: wide(m.value),
        reference: wide(m.reference),
        abs_diff: wide(m.abs_diff),
        rel_diff: wide(m.rel_diff),
        percent: format!("{}", f(m.percent)),
        threshold: wide(m.threshold),
        abs_tolerance: wide(m.abs_tolerance),
        scaled_rel: wide(m.scaled_rel),
    }
}

fn text(e: &OracleError) -> String {
    match e.mismatch() {
        Some(m) => e.message(&figures(m)),
        None => e.message(&Figures::blank()),
    }
}

fn bits(values: &[f64]) -> Vec<u64> {
    values.iter().map(|v| v.to_bits()).collect()
}

fn engine(inputs: &[f64], reverse: &[f64], forward: &[f64]) -> EngineResults {
    EngineResults { inputs: bits(inputs), reverse: bits(reverse), forward: bits(forward) }
}

fn truth(name: &str, jacobian: &[f64]) -> GroundTruth {
    GroundTruth { name: name.to_string(), jacobian: bits(jacobian) }
}

fn pairwise(values: &[u64], references: &[u64]) -> Vec<Deviation> {
    values
        .iter()
        .zip(references)
        .map(|(v, r)| deviation(f64::from_bits(*v), f64::from_bits(*r)))
        .collect()
}

fn arithmetic(engine: &EngineResults, truths: &[GroundTruth]) -> Arithmetic {
    Arithmetic {
        reverse_forward: pairwise(&engine.reverse, &engine.forward),
        reverse_truth: truths.iter().map(|t| pairwise(&engine.reverse, &t.jacobian)).collect(),
        forward_truth: truths.iter().map(|t| pairwise(&engine.forward, &t.jacobian)).collect(),
    }
}

fn check_all(selection: &str, engine: &EngineResults, truths: &[GroundTruth]) -> Result<(), OracleError> {
    FuzzingOracles::new(selection.to_string()).check_all(
        engine,
        truths,
        &arithmetic(engine, truths),
        HarnessMode::PanicOnFirstError,
    )
}

fn passes(value: f64, reference: f64, precedence: Precedence) -> bool {
    let outcome = hybrid_check(
        value.to_bits(),
        reference.to_bits(),
        &deviation(value, reference),
        ABS_TOLERANCE,
        precedence,
    );
    outcome == ToleranceOutcome::Pass
}

#[test]
fn the_bounds_are_what_they_are_called() {
    assert_eq!(ABS_TOLERANCE, 1e-12f64.to_bits());
    assert_eq!(REL_TOLERANCE, 1e-9f64.to_bits());
    assert_eq!(bounds().abs_tolerance, 1e-12f64.to_bits());
    assert_eq!(bounds().rel_tolerance, 1e-9f64.to_bits());
}

#[test]
fn against_zero_the_absolute_bound_decides() {
    for precedence in [Precedence::SkipFirst, Precedence::NanFirst] {
        assert!(passes(0.0, 0.0, precedence));
        assert!(passes(0.5e-12, 0.0, precedence));
        assert!(passes(-0.5e-12, 0.0, precedence));
        assert!(passes(1e-12, 0.0, precedence));
        assert!(!passes(1.0000001e-12, 0.0, precedence));
        assert!(!passes(2e-12, 0.0, precedence));
        assert!(!passes(-2e-12, 0.0, precedence));
        assert!(!passes(1.0, 0.0, precedence));
    }
    assert_eq!(threshold(ABS_TOLERANCE, 0.0f64.to_bits()), 1e-12f64.to_bits());
}

#[test]
fn against_a_million_the_relative_bound_decides() {
    let b = 1e6f64;
    let scaled = b * 1e-9;
    assert_eq!(threshold(ABS_TOLERANCE, scaled.to_bits()), scaled.to_bits());
    assert!((scaled - 1e-3).abs() < 1e-18);
    for precedence in [Precedence::SkipFirst, Precedence::NanFirst] {
        // far above 1e-12, below 1e-3
        assert!(passes(b + 5e-4, b, precedence));
        assert!(passes(b - 5e-4, b, precedence));
        assert!(passes(b + 1e-9, b, precedence));
        // above 1e-3
        assert!(!passes(b + 2e-3, b, precedence));
        assert!(!passes(b - 2e-3, b, precedence));
    }
    let outcome = hybrid_check(
        (b + 2e-3).to_bits(),
        b.to_bits(),
        &deviation(b + 2e-3, b),
        ABS_TOLERANCE,
        Precedence::SkipFirst,
    );
    match outcome {
        ToleranceOutcome::Fail { value, reference, abs_diff, rel_diff, percent, threshold } => {
            assert_eq!(value, (b + 2e-3).to_bits());
            assert_eq!(reference, b.to_bits());
            assert_eq!(abs_diff, ((b + 2e-3) - b).abs().to_bits());
            assert_eq!(rel_diff, (((b + 2e-3) - b).abs() / b).to_bits());
            assert_eq!(percent, (((b + 2e-3) - b).abs() / b * 100.0).to_bits());
            assert_eq!(threshold, scaled.to_bits());
        }
        ToleranceOutcome::Pass => panic!("a distance of 2e-3 passed"),
    }
}

#[test]
fn the_percentage_is_capped() {
    let outcome = hybrid_check(
        5.0f64.to_bits(),
        1.0f64.to_bits(),
        &deviation(5.0, 1.0),
        ABS_TOLERANCE,
        Precedence::SkipFirst,
    );
    match outcome {
        ToleranceOutcome::Fail { percent, rel_diff, .. } => {
            assert_eq!(f64::from_bits(rel_diff), 4.0);
            assert_eq!(f64::from_bits(percent), 100.0);
        }
        ToleranceOutcome::Pass => panic!("5 against 1 passed"),
    }
    let outcome = hybrid_check(
        1.25f64.to_bits(),
        1.0f64.to_bits(),
        &deviation(1.25, 1.0),
        ABS_TOLERANCE,
        Precedence::SkipFirst,
    );
    assert!(matches!(outcome, ToleranceOutcome::Fail { percent, .. } if f64::from_bits(percent) == 25.0));
}

#[test]
fn a_lone_nan_fails_against_a_finite_reference() {
    for precedence in [Precedence::SkipFirst, Precedence::NanFirst] {
        assert!(!passes(f64::NAN, 1.0, precedence));
        assert!(!passes(f64::NAN, 0.0, precedence));
        assert!(!passes(f64::INFINITY, 1.0, precedence));
        assert!(!passes(f64::NEG_INFINITY, 1.0, precedence));
    }
}

#[test]
fn a_reference_that_is_not_finite_is_not_judged() {
    for precedence in [Precedence::SkipFirst, Precedence::NanFirst] {
        assert!(passes(1.0, f64::INFINITY, precedence));
        assert!(passes(1.0, f64::NEG_INFINITY, precedence));
        assert!(passes(f64::INFINITY, f64::INFINITY, precedence));
        assert!(passes(f64::NEG_INFINITY, f64::INFINITY, precedence));
        assert!(passes(f64::NAN, f64::NAN, precedence));
    }
}

#[test]
fn precedence_settles_a_lone_nan_beside_a_reference_that_is_not_finite() {
    assert!(passes(1.0, f64::NAN, Precedence::SkipFirst));
    assert!(!passes(1.0, f64::NAN, Precedence::NanFirst));
    assert!(passes(f64::NAN, f64::INFINITY, Precedence::SkipFirst));
    assert!(!passes(f64::NAN, f64::INFINITY, Precedence::NanFirst));
}

#[test]
fn scenario_scaled_variable_passes_every_oracle() {
    let e = engine(&[1.0], &[-0.1], &[-0.1]);
    let truths = [truth("PyTorch", &[-0.1])];
    for selection in ["all", "rev_fwd", "rev_gt", "fwd_gt"] {
        assert!(check_all(selection, &e, &truths).is_ok());
    }
}

#[test]
fn scenario_sum_of_two_variables_passes_every_oracle() {
    let e = engine(&[3.0, 4.0], &[1.0, 1.0], &[1.0, 1.0]);
    let truths = [truth("PyTorch", &[1.0, 1.0])];
    assert!(check_all("all", &e, &truths).is_ok());
}

fn mismatch(r: Result<(), OracleError>) -> Mismatch {
    match r {
        Err(OracleError::Mismatch(m)) => m,
        Err(OracleError::Failed(m)) => m,
        other => panic!("no mismatch: {:?}", other),
    }
}

#[test]
fn the_first_failure_is_reported() {
    // entry 0: forward and truth differ; entry 1: reverse and forward differ
    let e = engine(&[3.0, 4.0], &[1.0, 2.0], &[1.5, 1.0]);
    let truths = [truth("PyTorch", &[1.0, 1.0]), truth("Other", &[7.0, 7.0])];

    let m = mismatch(check_all("all", &e, &truths));
    assert_eq!((m.value_name.as_str(), m.reference_name.as_str(), m.index), ("Reverse AD", "Forward AD", 0));
    assert_eq!(m.value, 1.0f64.to_bits());
    assert_eq!(m.reference, 1.5f64.to_bits());
    assert_eq!(m.abs_diff, 0.5f64.to_bits());
    assert_eq!(m.threshold, (1.5f64 * 1e-9).to_bits());
    assert_eq!(m.abs_tolerance, 1e-12f64.to_bits());
    assert_eq!(m.scaled_rel, (1.5f64 * 1e-9).to_bits());
    assert_eq!(m.inputs, bits(&[3.0, 4.0]));

    let m = mismatch(check_all("fwd_gt", &e, &truths));
    assert_eq!((m.value_name.as_str(), m.reference_name.as_str(), m.index), ("Forward AD", "PyTorch", 0));

    let m = mismatch(check_all("rev_gt", &e, &truths));
    assert_eq!((m.value_name.as_str(), m.reference_name.as_str(), m.index), ("Reverse AD", "Other", 0));

    let m = mismatch(check_all("rev_gt", &e, &truths[..1]));
    assert_eq!((m.value_name.as_str(), m.reference_name.as_str(), m.index), ("Reverse AD", "PyTorch", 1));
}

#[test]
fn every_truth_is_consulted_before_the_next_entry() {
    let e = engine(&[0.0, 0.0], &[1.0, 9.0], &[1.0, 9.0]);
    let truths = [truth("A", &[1.0, 5.0]), truth("B", &[2.0, 9.0])];
    let m = mismatch(check_all("all", &e, &truths));
    assert_eq!((m.reference_name.as_str(), m.index), ("B", 0));
    assert_eq!(m.value_name, "Reverse AD");
}

#[test]
fn the_selector_is_read_without_regard_to_case() {
    let e = engine(&[1.0], &[1.0], &[2.0]);
    for selection in ["all", "ALL", "All", "rev_fwd", "REV_FWD", "Rev_Fwd"] {
        assert!(check_all(selection, &e, &[]).is_err());
    }
    for selection in ["rev_gt", "fwd_gt", "", "none", "rev-fwd", "alle", "al"] {
        assert!(check_all(selection, &e, &[]).is_ok());
    }
    assert_eq!(FuzzingOracles::new("rev_gt".to_string()).check_mode, "rev_gt");
}

#[test]
fn jacobians_of_different_length_are_an_error_of_their_own() {
    let e = engine(&[1.0, 2.0], &[1.0, 1.0], &[1.0]);
    let arith = Arithmetic { reverse_forward: vec![], reverse_truth: vec![], forward_truth: vec![] };
    for selection in ["all", "rev_fwd", "rev_gt", "nothing"] {
        let r = FuzzingOracles::new(selection.to_string()).check_all(&e, &[], &arith, HarnessMode::Continuous);
        assert!(matches!(r, Err(OracleError::DimensionMismatch)));
    }
    assert_eq!(
        text(&OracleError::DimensionMismatch),
        "Engine error: AD derivative dimension mismatch!"
    );

    // a ground truth that is shorter than the Jacobians
    let e = engine(&[1.0], &[1.0], &[1.0]);
    let short = [truth("PyTorch", &[])];
    let arith = Arithmetic {
        reverse_forward: vec![deviation(1.0, 1.0)],
        reverse_truth: vec![vec![deviation(1.0, 1.0)]],
        forward_truth: vec![vec![deviation(1.0, 1.0)]],
    };
    let r = FuzzingOracles::new("all".to_string()).check_all(&e, &short, &arith, HarnessMode::Continuous);
    assert!(matches!(r, Err(OracleError::DimensionMismatch)));

    // a table of arithmetic that does not cover the entries
    let full = [truth("PyTorch", &[1.0])];
    let arith = Arithmetic {
        reverse_forward: vec![deviation(1.0, 1.0)],
        reverse_truth: vec![],
        forward_truth: vec![vec![deviation(1.0, 1.0)]],
    };
    let r = FuzzingOracles::new("all".to_string()).check_all(&e, &full, &arith, HarnessMode::Continuous);
    assert!(matches!(r, Err(OracleError::DimensionMismatch)));
}

#[test]
fn a_longer_ground_truth_is_compared_on_its_first_entries() {
    // two entries of the Jacobians against three of the ground truth
    let e = engine(&[1.0, 2.0], &[1.0, 5.0], &[1.0, 5.0]);
    let long = [truth("PyTorch", &[1.0, 5.0, 99.0])];
    assert!(check_all("all", &e, &long).is_ok());
    let wrong = [truth("PyTorch", &[1.0, 6.0, 99.0])];
    let m = mismatch(check_all("all", &e, &wrong));
    assert_eq!((m.kind, m.index), (OracleKind::ReverseVsTruth, 1));

    // Jacobians without an entry pass, whatever the ground truth and the point hold
    let e = engine(&[3.0], &[], &[]);
    assert!(check_all("all", &e, &[truth("PyTorch", &[1.0])]).is_ok());
    for mode in [HarnessMode::Continuous, HarnessMode::PanicOnFirstError] {
        let truths = [truth("PyTorch", &[1.0])];
        let r = FuzzingOracles::new("all".to_string()).check_all(&e, &truths, &arithmetic(&e, &truths), mode);
        assert!(r.is_ok());
    }
}

#[test]
fn empty_jacobians_pass() {
    let e = engine(&[], &[], &[]);
    assert!(check_all("all", &e, &[]).is_ok());
    assert!(check_all("all", &e, &[truth("PyTorch", &[])]).is_ok());
}

#[test]
fn single_checks() {
    let e = engine(&[1.0], &[2.0], &[3.0]);
    let gt = truth("PyTorch", &[2.0]);

    let rev_fwd = ReverseVsForwardCheck;
    let m = mismatch(rev_fwd.check(&e, None, 0, &deviation(2.0, 3.0)));
    assert_eq!((m.value, m.reference), (2.0f64.to_bits(), 3.0f64.to_bits()));
    assert!(matches!(rev_fwd.check(&e, None, 1, &deviation(2.0, 3.0)), Err(OracleError::DimensionMismatch)));

    let rev_gt = ADVsGroundTruthCheck { ad_type: ADType::Reverse };
    assert!(rev_gt.check(&e, Some(&gt), 0, &deviation(2.0, 2.0)).is_ok());
    assert!(matches!(rev_gt.check(&e, None, 0, &deviation(2.0, 2.0)), Err(OracleError::MissingGroundTruth)));
    assert!(matches!(rev_gt.check(&e, Some(&gt), 5, &deviation(2.0, 2.0)), Err(OracleError::DimensionMismatch)));
    assert_eq!(
        text(&OracleError::MissingGroundTruth),
        "AD vs Ground Truth check requires a ground truth input."
    );

    let fwd_gt = ADVsGroundTruthCheck { ad_type: ADType::Forward };
    let m = mismatch(fwd_gt.check(&e, Some(&gt), 0, &deviation(3.0, 2.0)));
    assert_eq!((m.value_name.as_str(), m.reference_name.as_str()), ("Forward AD", "PyTorch"));
    assert_eq!((m.value, m.reference), (3.0f64.to_bits(), 2.0f64.to_bits()));
}

#[test]
fn a_lone_nan_in_the_forward_jacobian_fails_reverse_against_forward() {
    let e = engine(&[1.0], &[1.0], &[f64::NAN]);
    assert!(ReverseVsForwardCheck.check(&e, None, 0, &deviation(1.0, f64::NAN)).is_err());
    // and a ground truth that is not a number is not judged
    let gt = truth("PyTorch", &[f64::NAN]);
    let rev_gt = ADVsGroundTruthCheck { ad_type: ADType::Reverse };
    assert!(rev_gt.check(&e, Some(&gt), 0, &deviation(1.0, f64::NAN)).is_ok());
}

#[test]
fn the_report_of_a_check_against_a_ground_truth() {
    let c = ADVsGroundTruthCheck { ad_type: ADType::Reverse };
    let e = engine(&[1.0], &[1.0], &[1.0]);
    let gt = truth("PyTorch", &[2.0]);
    let m = text(&c.check(&e, Some(&gt), 0, &deviation(1.0, 2.0)).unwrap_err());
    assert_eq!(
        m,
        "Reverse AD vs PyTorch failed! (Hybrid Tolerance Check)\n\
         Reverse AD: 1.0000000000e0, PyTorch: 2.0000000000e0\n\
         Absolute Diff: 1.0000000000e0\n\
         Relative Diff: 5.0000000000e-1 (50%)\n\
         Tolerance Threshold: 2.0000000000e-9 (max of Abs:1.0000000000e-12 or Rel:2.0000000000e-9)"
    );

    // the percentage is capped
    let e = engine(&[1.0], &[10.0], &[10.0]);
    let gt = truth("PyTorch", &[1.0]);
    let m = text(&c.check(&e, Some(&gt), 0, &deviation(10.0, 1.0)).unwrap_err());
    assert!(m.contains("Relative Diff: 9.0000000000e0 (100%)"));

    let c = ADVsGroundTruthCheck { ad_type: ADType::Forward };
    let e = engine(&[1.0], &[1.0], &[3.0]);
    let gt = truth("Other", &[4.0]);
    let m = text(&c.check(&e, Some(&gt), 0, &deviation(3.0, 4.0)).unwrap_err());
    assert!(m.starts_with("Forward AD vs Other failed! (Hybrid Tolerance Check)\nForward AD: 3.0000000000e0, Other: 4.0000000000e0\n"));
}

#[test]
fn the_report_of_reverse_against_forward() {
    let e = engine(&[1.0], &[1.0], &[2.0]);
    let m = text(&ReverseVsForwardCheck.check(&e, None, 0, &deviation(1.0, 2.0)).unwrap_err());
    assert_eq!(
        m,
        "Reverse vs Forward failed! Gradients differ. (Hybrid Tolerance Check)\n\
         Rev: 1.0000000000e0, Fwd: 2.0000000000e0\n\
         Absolute Diff: 1.0000000000e0\n\
         Relative Diff: 5.0000000000e-1 (50%)\n\
         Tolerance Threshold: 2.0000000000e-9 (max of Abs:1.0000000000e-12 or Rel:2.0000000000e-9)"
    );

    // beside a forward value within the absolute bound of zero the distance itself is shown
    let e = engine(&[1.0], &[0.25], &[0.0]);
    let failure = ReverseVsForwardCheck.check(&e, None, 0, &deviation(0.25, 0.0)).unwrap_err();
    let shown = mismatch(Err(failure));
    assert_eq!(shown.rel_diff, 0.25f64.to_bits());
    assert_eq!(shown.percent, 25.0f64.to_bits());
    assert!(text(&OracleError::Mismatch(shown)).contains("Relative Diff: 2.5000000000e-1 (25%)"));
}

#[test]
fn the_report_of_a_run_names_the_point_and_the_sides() {
    let o = FuzzingOracles::new("all".to_string());
    let e = engine(&[7.0, 8.0], &[1.0, 5.0], &[1.0, 6.0]);
    let gts = [truth("PyTorch", &[9.0, 5.0])];
    let failure = o.check_all(&e, &gts, &arithmetic(&e, &gts), HarnessMode::Continuous).unwrap_err();
    assert!(matches!(failure, OracleError::Failed(_)));
    let m = text(&failure);
    assert!(m.starts_with(
        "Oracle check failed for inputs [7.0, 8.0] (Rev vs PyTorch):\nReverse AD vs PyTorch failed! (Hybrid Tolerance Check)\nReverse AD: 1.0000000000e0, PyTorch: 9.0000000000e0\n"
    ));

    let failure = FuzzingOracles::new("fwd_gt".to_string())
        .check_all(&e, &gts, &arithmetic(&e, &gts), HarnessMode::Continuous)
        .unwrap_err();
    assert!(text(&failure).starts_with(
        "Oracle check failed for inputs [7.0, 8.0] (Fwd vs PyTorch):\nForward AD vs PyTorch failed!"
    ));

    let failure = FuzzingOracles::new("rev_fwd".to_string())
        .check_all(&e, &gts, &arithmetic(&e, &gts), HarnessMode::Continuous)
        .unwrap_err();
    assert!(text(&failure).starts_with(
        "Oracle check failed for inputs [7.0, 8.0]:\nReverse vs Forward failed! Gradients differ. (Hybrid Tolerance Check)\nRev: 5.0000000000e0, Fwd: 6.0000000000e0\n"
    ));
    assert_eq!(mismatch(Err(failure)).index, 1);
}

#[test]
fn the_figures_of_a_failure() {
    let r = judge(
        OracleKind::ReverseVsTruth,
        "Reverse AD",
        "PyTorch",
        3,
        &bits(&[0.5, -2.0]),
        1.5f64.to_bits(),
        1.0f64.to_bits(),
        &deviation(1.5, 1.0),
        ABS_TOLERANCE,
    );
    let m = mismatch(r);
    assert_eq!(m.kind, OracleKind::ReverseVsTruth);
    assert_eq!((m.value_name.as_str(), m.reference_name.as_str(), m.index), ("Reverse AD", "PyTorch", 3));
    assert_eq!(m.inputs, bits(&[0.5, -2.0]));
    assert_eq!(m.value, 1.5f64.to_bits());
    assert_eq!(m.reference, 1.0f64.to_bits());
    assert_eq!(m.abs_diff, 0.5f64.to_bits());
    assert_eq!(m.rel_diff, 0.5f64.to_bits());
    assert_eq!(m.percent, 50.0f64.to_bits());
    assert_eq!(m.threshold, 1e-9f64.to_bits());
    assert_eq!(m.abs_tolerance, 1e-12f64.to_bits());
    assert_eq!(m.scaled_rel, 1e-9f64.to_bits());
    assert_eq!(
        text(&OracleError::ArityMismatch { expected: 2, given: 3 }),
        "Input length mismatch: expected 2, got 3"
    );
}

#[test]
fn symbolic_derivatives_against_ground_truths() {
    let check = EvalexprVsPyTorchCheck::new();
    assert_eq!(check.bounds().abs_tolerance, 1e-12f64.to_bits());
    assert_eq!(check.bounds().rel_tolerance, 1e-9f64.to_bits());
    assert_eq!(EvalexprVsPyTorchCheck::default().bounds(), check.bounds());

    let inputs = bits(&[3.0, 4.0]);
    let gt = truth("PyTorch", &[6.0, 8.0]);
    assert!(check.check_derivative(6.0f64.to_bits(), &inputs, &gt, 0, &deviation(6.0, 6.0)).is_ok());
    let m = mismatch(check.check_derivative(6.5f64.to_bits(), &inputs, &gt, 0, &deviation(6.5, 6.0)));
    assert_eq!((m.value_name.as_str(), m.reference_name.as_str(), m.index), ("evalexpr-jit", "PyTorch", 0));
    assert_eq!(
        text(&OracleError::Mismatch(m)),
        format!(
            "evalexpr-jit vs PyTorch derivative mismatch for x_0: evalexpr-jit = 6.5, PyTorch = 6, diff = 0.5 (threshold = {})",
            6.0f64 * 1e-9
        )
    );
    assert!(matches!(
        check.check_derivative(6.0f64.to_bits(), &inputs, &gt, 2, &deviation(6.0, 6.0)),
        Err(OracleError::DimensionMismatch)
    ));

    let truths = [truth("A", &[6.0, 8.0]), truth("B", &[6.0, 9.0])];
    let derivatives = bits(&[6.0, 8.0]);
    let arith: Vec<Vec<Deviation>> = truths.iter().map(|t| pairwise(&derivatives, &t.jacobian)).collect();
    assert!(check.check_all(&derivatives, &inputs, &truths[..1], &arith[..1].to_vec()).is_ok());
    let m = mismatch(check.check_all(&derivatives, &inputs, &truths, &arith));
    assert_eq!((m.reference_name.as_str(), m.index), ("B", 1));
    assert!(matches!(
        check.check_all(&derivatives, &inputs, &truths, &arith[..1].to_vec()),
        Err(OracleError::DimensionMismatch)
    ));

    // one ground truth after the other: A fails at its last entry before B is looked at
    let truths = [truth("A", &[6.0, 0.0]), truth("B", &[0.0, 8.0])];
    let arith: Vec<Vec<Deviation>> = truths.iter().map(|t| pairwise(&derivatives, &t.jacobian)).collect();
    let m = mismatch(check.check_all(&derivatives, &inputs, &truths, &arith));
    assert_eq!((m.reference_name.as_str(), m.index), ("A", 1));
}
