//! Oracles: the rules that decide whether derivative vectors agree.
//!
//! An oracle compares one entry of one Jacobian with the same entry of another.
//! `FuzzingOracles` runs the selected oracles over every entry and stops at the
//! first that fails.

use crate::fuzz_harness::HarnessMode;
use crate::double;
use crate::text::{copy_bits, decimal, eq_ignore_case, push_decimal, same_ignoring_case};
use vstd::prelude::*;

pub mod ad_vs_pytorch;
pub mod evalexpr_vs_pytorch;
pub mod reverse_vs_forward;
pub mod tolerance;

pub use ad_vs_pytorch::{ADType, ADVsGroundTruthCheck};
pub use evalexpr_vs_pytorch::EvalexprVsPyTorchCheck;
pub use reverse_vs_forward::ReverseVsForwardCheck;
pub use tolerance::{
    hybrid_check, spec_hybrid_check, Bounds, Deviation, Precedence, ToleranceOutcome,
    ABS_TOLERANCE, REL_TOLERANCE,
};

verus! {

/// A Jacobian from an independent source. Every entry is the bit pattern of a
/// double.
#[derive(Debug)]
pub struct GroundTruth {
    pub name: String,
    pub jacobian: Vec<u64>,
}

/// The Jacobians of the two modes of the engine under test, and the point at
/// which they were taken. Every entry is the bit pattern of a double.
#[derive(Debug)]
pub struct EngineResults {
    pub inputs: Vec<u64>,
    pub reverse: Vec<u64>,
    pub forward: Vec<u64>,
}

impl Clone for GroundTruth {
    fn clone(&self) -> (r: Self)
        ensures
            r.name@ == self.name@,
            r.jacobian@ == self.jacobian@,
    {
        GroundTruth { name: self.name.clone(), jacobian: copy_bits(&self.jacobian) }
    }
}

impl Clone for EngineResults {
    fn clone(&self) -> (r: Self)
        ensures
            r.inputs@ == self.inputs@,
            r.reverse@ == self.reverse@,
            r.forward@ == self.forward@,
    {
        EngineResults {
            inputs: copy_bits(&self.inputs),
            reverse: copy_bits(&self.reverse),
            forward: copy_bits(&self.forward),
        }
    }
}

/// What arithmetic says of every pair of entries that may be compared.
#[derive(Debug)]
pub struct Arithmetic {
    /// Entry `i`: reverse against forward.
    pub reverse_forward: Vec<Deviation>,
    /// Entry `g`, `i`: reverse against ground truth `g`.
    pub reverse_truth: Vec<Vec<Deviation>>,
    /// Entry `g`, `i`: forward against ground truth `g`.
    pub forward_truth: Vec<Vec<Deviation>>,
}

/// The rules that compare two entries.
#[derive(Debug, Clone, Copy, PartialEq, Eq, Structural)]
pub enum OracleKind {
    /// Reverse mode against forward mode.
    ReverseVsForward,
    /// Reverse mode against a ground truth.
    ReverseVsTruth,
    /// Forward mode against a ground truth.
    ForwardVsTruth,
    /// The symbolic evaluator against a ground truth.
    Symbolic,
}

/// A pair of entries that do not agree, with all that is needed to judge the
/// failure without running the comparison again.
#[derive(Debug)]
pub struct Mismatch {
    pub kind: OracleKind,
    pub value_name: String,
    pub reference_name: String,
    pub index: usize,
    pub inputs: Vec<u64>,
    pub value: u64,
    pub reference: u64,
    pub abs_diff: u64,
    /// The relative distance that the report shows.
    pub rel_diff: u64,
    /// That distance in percent, at most 100.
    pub percent: u64,
    pub threshold: u64,
    pub abs_tolerance: u64,
    pub scaled_rel: u64,
}

/// The model of a `Mismatch`.
pub struct MismatchView {
    pub kind: OracleKind,
    pub value_name: Seq<char>,
    pub reference_name: Seq<char>,
    pub index: usize,
    pub inputs: Seq<u64>,
    pub value: u64,
    pub reference: u64,
    pub abs_diff: u64,
    pub rel_diff: u64,
    pub percent: u64,
    pub threshold: u64,
    pub abs_tolerance: u64,
    pub scaled_rel: u64,
}

impl View for Mismatch {
    type V = MismatchView;

    open spec fn view(&self) -> MismatchView {
        MismatchView {
            kind: self.kind,
            value_name: self.value_name@,
            reference_name: self.reference_name@,
            index: self.index,
            inputs: self.inputs@,
            value: self.value,
            reference: self.reference,
            abs_diff: self.abs_diff,
            rel_diff: self.rel_diff,
            percent: self.percent,
            threshold: self.threshold,
            abs_tolerance: self.abs_tolerance,
            scaled_rel: self.scaled_rel,
        }
    }
}

/// The figures of a `Mismatch` as they are to be read: the caller writes each
/// double out, and the report is put together from the texts.
#[derive(Debug)]
pub struct Figures {
    /// The point, as a list in square brackets.
    pub inputs: String,
    pub value: String,
    pub reference: String,
    pub abs_diff: String,
    pub rel_diff: String,
    pub percent: String,
    pub threshold: String,
    pub abs_tolerance: String,
    pub scaled_rel: String,
}

/// The model of `Figures`.
pub struct FiguresView {
    pub inputs: Seq<char>,
    pub value: Seq<char>,
    pub reference: Seq<char>,
    pub abs_diff: Seq<char>,
    pub rel_diff: Seq<char>,
    pub percent: Seq<char>,
    pub threshold: Seq<char>,
    pub abs_tolerance: Seq<char>,
    pub scaled_rel: Seq<char>,
}

impl View for Figures {
    type V = FiguresView;

    open spec fn view(&self) -> FiguresView {
        FiguresView {
            inputs: self.inputs@,
            value: self.value@,
            reference: self.reference@,
            abs_diff: self.abs_diff@,
            rel_diff: self.rel_diff@,
            percent: self.percent@,
            threshold: self.threshold@,
            abs_tolerance: self.abs_tolerance@,
            scaled_rel: self.scaled_rel@,
        }
    }
}

impl Figures {
    /// Figures without a text, for errors that show none.
    pub fn blank() -> (f: Self)
        ensures
            f@.inputs == Seq::<char>::empty(),
            f@.value == Seq::<char>::empty(),
            f@.reference == Seq::<char>::empty(),
            f@.abs_diff == Seq::<char>::empty(),
            f@.rel_diff == Seq::<char>::empty(),
            f@.percent == Seq::<char>::empty(),
            f@.threshold == Seq::<char>::empty(),
            f@.abs_tolerance == Seq::<char>::empty(),
            f@.scaled_rel == Seq::<char>::empty(),
    {
        Figures {
            inputs: String::new(),
            value: String::new(),
            reference: String::new(),
            abs_diff: String::new(),
            rel_diff: String::new(),
            percent: String::new(),
            threshold: String::new(),
            abs_tolerance: String::new(),
            scaled_rel: String::new(),
        }
    }
}

/// Why a check did not pass.
#[derive(Debug)]
pub enum OracleError {
    /// Two vectors that are compared entry by entry do not fit: the Jacobians
    /// of the two modes differ in length, a ground truth is shorter than they
    /// are, or an index lies beyond them.
    DimensionMismatch,
    /// A comparison with a ground truth was asked for without one.
    MissingGroundTruth,
    /// The point has another number of coordinates than the function has
    /// inputs.
    ArityMismatch { expected: usize, given: usize },
    /// Two entries do not agree: the failure of one check.
    Mismatch(Mismatch),
    /// Two entries do not agree: the first failure among all checks of a run.
    Failed(Mismatch),
}

/// The model of an `OracleError`.
pub enum OracleFault {
    DimensionMismatch,
    MissingGroundTruth,
    ArityMismatch { expected: usize, given: usize },
    Mismatch(MismatchView),
    Failed(MismatchView),
}

impl View for OracleError {
    type V = OracleFault;

    open spec fn view(&self) -> OracleFault {
        match self {
            OracleError::DimensionMismatch => OracleFault::DimensionMismatch,
            OracleError::MissingGroundTruth => OracleFault::MissingGroundTruth,
            OracleError::ArityMismatch { expected, given } => OracleFault::ArityMismatch {
                expected: *expected,
                given: *given,
            },
            OracleError::Mismatch(m) => OracleFault::Mismatch(m@),
            OracleError::Failed(m) => OracleFault::Failed(m@),
        }
    }
}

impl MismatchView {
    /// The lines of a report that give the distances and the bound.
    pub open spec fn distances(self, f: FiguresView) -> Seq<char> {
        "\nAbsolute Diff: "@ + f.abs_diff + "\nRelative Diff: "@ + f.rel_diff + " ("@ + f.percent
            + "%)\nTolerance Threshold: "@ + f.threshold + " (max of Abs:"@ + f.abs_tolerance
            + " or Rel:"@ + f.scaled_rel + ")"@
    }

    /// The report of one failed check: which values disagree, the values, the
    /// distances and the bound.
    pub open spec fn message(self, f: FiguresView) -> Seq<char> {
        match self.kind {
            OracleKind::ReverseVsForward => "Reverse vs Forward failed! Gradients differ. (Hybrid Tolerance Check)\nRev: "@
                + f.value + ", Fwd: "@ + f.reference + self.distances(f),
            OracleKind::Symbolic => "evalexpr-jit vs "@ + self.reference_name
                + " derivative mismatch for x_"@ + decimal(self.index as nat)
                + ": evalexpr-jit = "@ + f.value + ", "@ + self.reference_name + " = "@
                + f.reference + ", diff = "@ + f.abs_diff + " (threshold = "@ + f.threshold + ")"@,
            _ => self.value_name + " vs "@ + self.reference_name
                + " failed! (Hybrid Tolerance Check)\n"@ + self.value_name + ": "@ + f.value
                + ", "@ + self.reference_name + ": "@ + f.reference + self.distances(f),
        }
    }

    /// The head of the report of a run: the point, and for a comparison with a
    /// ground truth the two sides.
    pub open spec fn head(self, f: FiguresView) -> Seq<char> {
        match self.kind {
            OracleKind::ReverseVsForward => "Oracle check failed for inputs "@ + f.inputs + ":\n"@,
            OracleKind::ReverseVsTruth => "Oracle check failed for inputs "@ + f.inputs
                + " (Rev vs "@ + self.reference_name + "):\n"@,
            OracleKind::ForwardVsTruth => "Oracle check failed for inputs "@ + f.inputs
                + " (Fwd vs "@ + self.reference_name + "):\n"@,
            OracleKind::Symbolic => Seq::empty(),
        }
    }

    /// The report of the first failure of a run: the head and the report of the
    /// check.
    pub open spec fn report(self, f: FiguresView) -> Seq<char> {
        self.head(f) + self.message(f)
    }
}

impl OracleFault {
    /// The text of the error.
    pub open spec fn message(self, f: FiguresView) -> Seq<char> {
        match self {
            OracleFault::DimensionMismatch => "Engine error: AD derivative dimension mismatch!"@,
            OracleFault::MissingGroundTruth => "AD vs Ground Truth check requires a ground truth input."@,
            OracleFault::ArityMismatch { expected, given } => "Input length mismatch: expected "@
                + decimal(expected as nat) + ", got "@ + decimal(given as nat),
            OracleFault::Mismatch(m) => m.message(f),
            OracleFault::Failed(m) => m.report(f),
        }
    }
}

impl Mismatch {
    fn push_distances(&self, s: &mut String, f: &Figures)
        ensures
            final(s)@ == old(s)@ + self@.distances(f@),
    {
        s.append("\nAbsolute Diff: ");
        s.append(f.abs_diff.as_str());
        s.append("\nRelative Diff: ");
        s.append(f.rel_diff.as_str());
        s.append(" (");
        s.append(f.percent.as_str());
        s.append("%)\nTolerance Threshold: ");
        s.append(f.threshold.as_str());
        s.append(" (max of Abs:");
        s.append(f.abs_tolerance.as_str());
        s.append(" or Rel:");
        s.append(f.scaled_rel.as_str());
        s.append(")");
        assert(s@ =~= old(s)@ + self@.distances(f@));
    }

    fn push_message(&self, s: &mut String, f: &Figures)
        ensures
            final(s)@ == old(s)@ + self@.message(f@),
    {
        match self.kind {
            OracleKind::ReverseVsForward => {
                s.append(
                    "Reverse vs Forward failed! Gradients differ. (Hybrid Tolerance Check)\nRev: ",
                );
                s.append(f.value.as_str());
                s.append(", Fwd: ");
                s.append(f.reference.as_str());
                self.push_distances(s, f);
                assert(s@ =~= old(s)@ + self@.message(f@));
            },
            OracleKind::Symbolic => {
                s.append("evalexpr-jit vs ");
                s.append(self.reference_name.as_str());
                s.append(" derivative mismatch for x_");
                push_decimal(s, self.index as u64);
                s.append(": evalexpr-jit = ");
                s.append(f.value.as_str());
                s.append(", ");
                s.append(self.reference_name.as_str());
                s.append(" = ");
                s.append(f.reference.as_str());
                s.append(", diff = ");
                s.append(f.abs_diff.as_str());
                s.append(" (threshold = ");
                s.append(f.threshold.as_str());
                s.append(")");
                assert(s@ =~= old(s)@ + self@.message(f@));
            },
            _ => {
                s.append(self.value_name.as_str());
                s.append(" vs ");
                s.append(self.reference_name.as_str());
                s.append(" failed! (Hybrid Tolerance Check)\n");
                s.append(self.value_name.as_str());
                s.append(": ");
                s.append(f.value.as_str());
                s.append(", ");
                s.append(self.reference_name.as_str());
                s.append(": ");
                s.append(f.reference.as_str());
                self.push_distances(s, f);
                assert(s@ =~= old(s)@ + self@.message(f@));
            },
        }
    }

    /// The report of the failed check, with the figures as `figures` writes
    /// them.
    pub fn message(&self, figures: &Figures) -> (s: String)
        ensures
            s@ == self@.message(figures@),
    {
        let mut s = String::new();
        self.push_message(&mut s, figures);
        assert(s@ =~= self@.message(figures@));
        s
    }

    /// The report of the first failure of a run, with the figures as `figures`
    /// writes them.
    pub fn report(&self, figures: &Figures) -> (s: String)
        ensures
            s@ == self@.report(figures@),
    {
        let mut s = String::new();
        match self.kind {
            OracleKind::ReverseVsForward => {
                s.append("Oracle check failed for inputs ");
                s.append(figures.inputs.as_str());
                s.append(":\n");
            },
            OracleKind::ReverseVsTruth => {
                s.append("Oracle check failed for inputs ");
                s.append(figures.inputs.as_str());
                s.append(" (Rev vs ");
                s.append(self.reference_name.as_str());
                s.append("):\n");
            },
            OracleKind::ForwardVsTruth => {
                s.append("Oracle check failed for inputs ");
                s.append(figures.inputs.as_str());
                s.append(" (Fwd vs ");
                s.append(self.reference_name.as_str());
                s.append("):\n");
            },
            OracleKind::Symbolic => {},
        }
        assert(s@ =~= self@.head(figures@));
        self.push_message(&mut s, figures);
        s
    }
}

impl OracleError {
    /// The text of the error, with the figures of a mismatch as `figures`
    /// writes them.
    pub fn message(&self, figures: &Figures) -> (s: String)
        ensures
            s@ == self@.message(figures@),
    {
        match self {
            OracleError::DimensionMismatch => String::from_str(
                "Engine error: AD derivative dimension mismatch!",
            ),
            OracleError::MissingGroundTruth => String::from_str(
                "AD vs Ground Truth check requires a ground truth input.",
            ),
            OracleError::ArityMismatch { expected, given } => {
                let mut s = String::from_str("Input length mismatch: expected ");
                push_decimal(&mut s, *expected as u64);
                s.append(", got ");
                push_decimal(&mut s, *given as u64);
                s
            },
            OracleError::Mismatch(m) => m.message(figures),
            OracleError::Failed(m) => m.report(figures),
        }
    }

    /// The mismatch whose figures the text of the error shows, if it shows any.
    pub fn mismatch(&self) -> (m: Option<&Mismatch>)
        ensures
            match self {
                OracleError::Mismatch(x) => m == Some(x),
                OracleError::Failed(x) => m == Some(x),
                _ => m is None,
            },
    {
        match self {
            OracleError::Mismatch(x) => Some(x),
            OracleError::Failed(x) => Some(x),
            _ => None,
        }
    }
}

/// How an exec result relates to a result over models.
pub open spec fn reports(r: Result<(), OracleError>, m: Result<(), OracleFault>) -> bool {
    match m {
        Ok(_) => r is Ok,
        Err(f) => r is Err && r->Err_0@ == f,
    }
}

/// Which of the two rules for undefined values a kind of oracle applies first:
/// between the two modes a NaN on one side only is a failure whatever the other
/// side is; a ground truth that is not finite is not judged.
pub open spec fn precedence_of(kind: OracleKind) -> Precedence {
    if kind == OracleKind::ReverseVsForward {
        Precedence::NanFirst
    } else {
        Precedence::SkipFirst
    }
}

/// Whether the report shows the distance itself in place of the relative
/// distance: between the two modes, where the reference value is within the
/// absolute bound of zero.
pub open spec fn shows_distance(kind: OracleKind, reference: u64, abs_tolerance: u64) -> bool {
    kind == OracleKind::ReverseVsForward && !double::spec_lt(
        abs_tolerance,
        double::spec_magnitude(reference),
    )
}

/// The verdict on one named pair of entries at a point.
pub open spec fn spec_judge(
    kind: OracleKind,
    value_name: Seq<char>,
    reference_name: Seq<char>,
    index: usize,
    inputs: Seq<u64>,
    value: u64,
    reference: u64,
    dev: Deviation,
    abs_tolerance: u64,
) -> Result<(), OracleFault> {
    if tolerance::fails(value, reference, dev, abs_tolerance, precedence_of(kind)) {
        Err(
            OracleFault::Mismatch(
                MismatchView {
                    kind,
                    value_name,
                    reference_name,
                    index,
                    inputs,
                    value,
                    reference,
                    abs_diff: dev.abs_diff,
                    rel_diff: if shows_distance(kind, reference, abs_tolerance) {
                        dev.abs_diff
                    } else {
                        dev.rel_diff
                    },
                    percent: double::spec_min(
                        if shows_distance(kind, reference, abs_tolerance) {
                            dev.abs_percent
                        } else {
                            dev.percent
                        },
                        double::HUNDRED,
                    ),
                    threshold: tolerance::spec_threshold(abs_tolerance, dev.scaled_rel),
                    abs_tolerance,
                    scaled_rel: dev.scaled_rel,
                },
            ),
        )
    } else {
        Ok(())
    }
}

/// Judges one named pair of entries at a point.
pub fn judge(
    kind: OracleKind,
    value_name: &str,
    reference_name: &str,
    index: usize,
    inputs: &Vec<u64>,
    value: u64,
    reference: u64,
    dev: &Deviation,
    abs_tolerance: u64,
) -> (r: Result<(), OracleError>)
    ensures
        reports(
            r,
            spec_judge(
                kind,
                value_name@,
                reference_name@,
                index,
                inputs@,
                value,
                reference,
                *dev,
                abs_tolerance,
            ),
        ),
{
    let precedence = match kind {
        OracleKind::ReverseVsForward => Precedence::NanFirst,
        _ => Precedence::SkipFirst,
    };
    match hybrid_check(value, reference, dev, abs_tolerance, precedence) {
        ToleranceOutcome::Pass => Ok(()),
        ToleranceOutcome::Fail { value, reference, abs_diff, rel_diff, percent, threshold } => {
            let distance = match kind {
                OracleKind::ReverseVsForward => !double::lt(
                    abs_tolerance,
                    double::magnitude(reference),
                ),
                _ => false,
            };
            Err(
                OracleError::Mismatch(
                    Mismatch {
                        kind,
                        value_name: String::from_str(value_name),
                        reference_name: String::from_str(reference_name),
                        index,
                        inputs: copy_bits(inputs),
                        value,
                        reference,
                        abs_diff,
                        rel_diff: if distance {
                            abs_diff
                        } else {
                            rel_diff
                        },
                        percent: if distance {
                            double::min(dev.abs_percent, double::HUNDRED)
                        } else {
                            percent
                        },
                        threshold,
                        abs_tolerance,
                        scaled_rel: dev.scaled_rel,
                    },
                ),
            )
        },
    }
}

/// The failure of a check as the failure of the run that the check is part of.
pub open spec fn of_run(verdict: Result<(), OracleFault>) -> Result<(), OracleFault> {
    match verdict {
        Err(OracleFault::Mismatch(m)) => Err(OracleFault::Failed(m)),
        other => other,
    }
}

/// The failure of a check as the failure of the run that the check is part of.
fn into_run(error: OracleError) -> (r: OracleError)
    ensures
        of_run(Err(error@)) == Err::<(), OracleFault>(r@),
{
    match error {
        OracleError::Mismatch(m) => OracleError::Failed(m),
        other => other,
    }
}

/// A rule that compares entry `index` of two Jacobians.
pub trait Oracle {
    /// What the rule decides.
    spec fn verdict(
        &self,
        engine: &EngineResults,
        ground_truth: Option<&GroundTruth>,
        index: usize,
        arith: &Deviation,
    ) -> Result<(), OracleFault>;

    /// Compares entry `index`; `arith` is what arithmetic says of the two values
    /// that the rule compares.
    fn check(
        &self,
        engine: &EngineResults,
        ground_truth: Option<&GroundTruth>,
        index: usize,
        arith: &Deviation,
    ) -> (r: Result<(), OracleError>)
        ensures
            reports(r, self.verdict(engine, ground_truth, index, arith)),
    ;
}

/// The oracles of a run and the selector that says which of them are applied:
/// `all`, `rev_fwd`, `rev_gt` or `fwd_gt`, in any case of letters. Any other
/// selector applies none.
#[derive(Debug)]
pub struct FuzzingOracles {
    pub reverse_vs_forward: ReverseVsForwardCheck,
    pub reverse_vs_gt: ADVsGroundTruthCheck,
    pub forward_vs_gt: ADVsGroundTruthCheck,
    pub check_mode: String,
}

impl Clone for FuzzingOracles {
    fn clone(&self) -> (r: Self)
        ensures
            r.check_mode@ == self.check_mode@,
            r.reverse_vs_gt.ad_type == self.reverse_vs_gt.ad_type,
            r.forward_vs_gt.ad_type == self.forward_vs_gt.ad_type,
    {
        FuzzingOracles {
            reverse_vs_forward: ReverseVsForwardCheck,
            reverse_vs_gt: ADVsGroundTruthCheck { ad_type: self.reverse_vs_gt.ad_type },
            forward_vs_gt: ADVsGroundTruthCheck { ad_type: self.forward_vs_gt.ad_type },
            check_mode: self.check_mode.clone(),
        }
    }
}

impl FuzzingOracles {
    /// The three oracles under the given selector.
    pub fn new(selection: String) -> (o: Self)
        ensures
            o.check_mode == selection,
            o.reverse_vs_gt.ad_type == ADType::Reverse,
            o.forward_vs_gt.ad_type == ADType::Forward,
    {
        FuzzingOracles {
            reverse_vs_forward: ReverseVsForwardCheck,
            reverse_vs_gt: ADVsGroundTruthCheck { ad_type: ADType::Reverse },
            forward_vs_gt: ADVsGroundTruthCheck { ad_type: ADType::Forward },
            check_mode: selection,
        }
    }

    /// Whether the selector applies the oracle of the given kind.
    pub open spec fn selects(&self, kind: Seq<char>) -> bool {
        same_ignoring_case(self.check_mode@, "all"@) || same_ignoring_case(self.check_mode@, kind)
    }

    /// Whether the Jacobians of the two modes have the same length, every
    /// ground truth has an entry for each of theirs, and the table of
    /// arithmetic has one row for every ground truth and one entry for each
    /// pair.
    pub open spec fn well_shaped(
        engine: &EngineResults,
        truths: Seq<GroundTruth>,
        arith: &Arithmetic,
    ) -> bool {
        let n = engine.reverse@.len();
        &&& engine.forward@.len() == n
        &&& arith.reverse_forward@.len() == n
        &&& arith.reverse_truth@.len() == truths.len()
        &&& arith.forward_truth@.len() == truths.len()
        &&& forall|g: int| 0 <= g < truths.len() ==> Self::row_fits(truths, arith, g, n)
    }

    /// Whether ground truth `g` has `n` entries or more, and its two rows of
    /// arithmetic have `n`.
    pub open spec fn row_fits(truths: Seq<GroundTruth>, arith: &Arithmetic, g: int, n: nat) -> bool {
        &&& truths[g].jacobian@.len() >= n
        &&& arith.reverse_truth@[g]@.len() == n
        &&& arith.forward_truth@[g]@.len() == n
    }

    /// Entry `i` against one ground truth: the reverse Jacobian first, then the
    /// forward one, each where it is selected.
    pub open spec fn against(
        &self,
        engine: &EngineResults,
        truth: &GroundTruth,
        reverse: &Deviation,
        forward: &Deviation,
        i: usize,
    ) -> Result<(), OracleFault> {
        let first = if self.selects("rev_gt"@) {
            of_run(self.reverse_vs_gt.verdict(engine, Some(truth), i, reverse))
        } else {
            Ok(())
        };
        if first is Err {
            first
        } else if self.selects("fwd_gt"@) {
            of_run(self.forward_vs_gt.verdict(engine, Some(truth), i, forward))
        } else {
            Ok(())
        }
    }

    /// Entry `i` against the first `g` ground truths, in order.
    pub open spec fn against_first(
        &self,
        engine: &EngineResults,
        truths: Seq<GroundTruth>,
        arith: &Arithmetic,
        i: usize,
        g: nat,
    ) -> Result<(), OracleFault>
        decreases g,
    {
        if g == 0 || g > truths.len() {
            Ok(())
        } else {
            match self.against_first(engine, truths, arith, i, (g - 1) as nat) {
                Err(e) => Err(e),
                Ok(_) => self.against(
                    engine,
                    &truths[g - 1],
                    &arith.reverse_truth@[g - 1]@[i as int],
                    &arith.forward_truth@[g - 1]@[i as int],
                    i,
                ),
            }
        }
    }

    /// All selected checks of entry `i`: reverse against forward, then every
    /// ground truth in order.
    pub open spec fn at_index(
        &self,
        engine: &EngineResults,
        truths: Seq<GroundTruth>,
        arith: &Arithmetic,
        i: usize,
    ) -> Result<(), OracleFault> {
        let first = if self.selects("rev_fwd"@) {
            of_run(
                self.reverse_vs_forward.verdict(engine, None, i, &arith.reverse_forward@[i as int]),
            )
        } else {
            Ok(())
        };
        if first is Err {
            first
        } else {
            self.against_first(engine, truths, arith, i, truths.len())
        }
    }

    /// All selected checks of the first `n` entries, in order.
    pub open spec fn upto(
        &self,
        engine: &EngineResults,
        truths: Seq<GroundTruth>,
        arith: &Arithmetic,
        n: nat,
    ) -> Result<(), OracleFault>
        decreases n,
    {
        if n == 0 || n > usize::MAX {
            Ok(())
        } else {
            match self.upto(engine, truths, arith, (n - 1) as nat) {
                Err(e) => Err(e),
                Ok(_) => self.at_index(engine, truths, arith, (n - 1) as usize),
            }
        }
    }

    /// What `check_all` decides: a dimension error where the shapes do not fit,
    /// else the first failure among all selected checks, entry by entry.
    pub open spec fn spec_check_all(
        &self,
        engine: &EngineResults,
        truths: Seq<GroundTruth>,
        arith: &Arithmetic,
    ) -> Result<(), OracleFault> {
        if !Self::well_shaped(engine, truths, arith) {
            Err(OracleFault::DimensionMismatch)
        } else {
            self.upto(engine, truths, arith, engine.reverse@.len())
        }
    }

    /// Once the checks against a prefix of the ground truths fail, those
    /// against every longer prefix fail in the same way.
    pub proof fn against_first_fails(
        &self,
        engine: &EngineResults,
        truths: Seq<GroundTruth>,
        arith: &Arithmetic,
        i: usize,
        g: nat,
        h: nat,
    )
        requires
            g <= h <= truths.len(),
            self.against_first(engine, truths, arith, i, g) is Err,
        ensures
            self.against_first(engine, truths, arith, i, h) == self.against_first(
                engine,
                truths,
                arith,
                i,
                g,
            ),
        decreases h,
    {
        if g < h {
            self.against_first_fails(engine, truths, arith, i, g, (h - 1) as nat);
        }
    }

    /// Once the checks of a prefix of the entries fail, those of every longer
    /// prefix fail in the same way.
    pub proof fn upto_fails(
        &self,
        engine: &EngineResults,
        truths: Seq<GroundTruth>,
        arith: &Arithmetic,
        n: nat,
        m: nat,
    )
        requires
            n <= m <= usize::MAX,
            self.upto(engine, truths, arith, n) is Err,
        ensures
            self.upto(engine, truths, arith, m) == self.upto(engine, truths, arith, n),
        decreases m,
    {
        if n < m {
            self.upto_fails(engine, truths, arith, n, (m - 1) as nat);
        }
    }

    /// The checks of the first `n` entries pass exactly where those of every
    /// entry among them pass, and fail as the first entry that fails.
    pub proof fn upto_is_first_failure(
        &self,
        engine: &EngineResults,
        truths: Seq<GroundTruth>,
        arith: &Arithmetic,
        n: nat,
    )
        requires
            n <= usize::MAX,
        ensures
            self.upto(engine, truths, arith, n) is Ok <==> forall|i: nat|
                i < n ==> (#[trigger] self.at_index(engine, truths, arith, i as usize)) is Ok,
            self.upto(engine, truths, arith, n) is Err ==> exists|i: nat|
                i < n && self.upto(engine, truths, arith, n) == #[trigger] self.at_index(
                    engine,
                    truths,
                    arith,
                    i as usize,
                ) && forall|j: nat|
                    j < i ==> (#[trigger] self.at_index(engine, truths, arith, j as usize)) is Ok,
        decreases n,
    {
        if n > 0 {
            let m = (n - 1) as nat;
            self.upto_is_first_failure(engine, truths, arith, m);
            if self.upto(engine, truths, arith, m) is Ok {
                if self.at_index(engine, truths, arith, m as usize) is Err {
                    assert(m < n && self.upto(engine, truths, arith, n) == self.at_index(
                        engine,
                        truths,
                        arith,
                        m as usize,
                    ));
                }
            } else {
                let i = choose|i: nat|
                    i < m && self.upto(engine, truths, arith, m) == #[trigger] self.at_index(
                        engine,
                        truths,
                        arith,
                        i as usize,
                    ) && forall|j: nat|
                        j < i ==> (#[trigger] self.at_index(engine, truths, arith, j as usize))
                            is Ok;
                assert(i < n && self.upto(engine, truths, arith, n) == self.at_index(
                    engine,
                    truths,
                    arith,
                    i as usize,
                ));
            }
        }
    }

    fn shapes_agree(engine: &EngineResults, ground_truths: &[GroundTruth], arith: &Arithmetic) -> (b:
        bool)
        ensures
            b == Self::well_shaped(engine, ground_truths@, arith),
    {
        let n = engine.reverse.len();
        if engine.forward.len() != n || arith.reverse_forward.len() != n
            || arith.reverse_truth.len() != ground_truths.len() || arith.forward_truth.len()
            != ground_truths.len() {
            return false;
        }
        let mut g: usize = 0;
        while g < ground_truths.len()
            invariant
                g <= ground_truths@.len(),
                n == engine.reverse@.len(),
                arith.reverse_truth@.len() == ground_truths@.len(),
                arith.forward_truth@.len() == ground_truths@.len(),
                forall|h: int| 0 <= h < g ==> Self::row_fits(ground_truths@, arith, h, n as nat),
            decreases ground_truths@.len() - g,
        {
            if ground_truths[g].jacobian.len() < n || arith.reverse_truth[g].len() != n
                || arith.forward_truth[g].len() != n {
                assert(!Self::row_fits(ground_truths@, arith, g as int, n as nat));
                return false;
            }
            assert(Self::row_fits(ground_truths@, arith, g as int, n as nat));
            g = g + 1;
        }
        true
    }

    /// Runs the selected oracles over every entry of the Jacobians and every
    /// ground truth, and returns the first failure.
    ///
    /// `arith` holds what arithmetic says of each pair of entries. The result
    /// does not depend on `mode`: what follows from a failure is the caller's
    /// to decide.
    pub fn check_all(
        &self,
        engine: &EngineResults,
        ground_truths: &[GroundTruth],
        arith: &Arithmetic,
        mode: HarnessMode,
    ) -> (r: Result<(), OracleError>)
        ensures
            reports(r, self.spec_check_all(engine, ground_truths@, arith)),
    {
        if !Self::shapes_agree(engine, ground_truths, arith) {
            return Err(OracleError::DimensionMismatch);
        }
        let all = eq_ignore_case(self.check_mode.as_str(), "all");
        let rev_fwd = all || eq_ignore_case(self.check_mode.as_str(), "rev_fwd");
        let rev_gt = all || eq_ignore_case(self.check_mode.as_str(), "rev_gt");
        let fwd_gt = all || eq_ignore_case(self.check_mode.as_str(), "fwd_gt");
        let n = engine.reverse.len();
        let ghost truths = ground_truths@;
        let mut i: usize = 0;
        while i < n
            invariant
                i <= n,
                n == engine.reverse@.len(),
                truths == ground_truths@,
                Self::well_shaped(engine, truths, arith),
                rev_fwd == self.selects("rev_fwd"@),
                rev_gt == self.selects("rev_gt"@),
                fwd_gt == self.selects("fwd_gt"@),
                self.upto(engine, truths, arith, i as nat) is Ok,
            decreases n - i,
        {
            if rev_fwd {
                match self.reverse_vs_forward.check(engine, None, i, &arith.reverse_forward[i]) {
                    Err(e) => {
                        proof {
                            self.upto_fails(engine, truths, arith, (i + 1) as nat, n as nat);
                        }
                        return Err(into_run(e));
                    },
                    Ok(_) => {},
                }
            }
            let mut g: usize = 0;
            while g < ground_truths.len()
                invariant
                    g <= truths.len(),
                    i < n,
                    n == engine.reverse@.len(),
                    truths == ground_truths@,
                    Self::well_shaped(engine, truths, arith),
                    rev_gt == self.selects("rev_gt"@),
                    fwd_gt == self.selects("fwd_gt"@),
                    self.upto(engine, truths, arith, i as nat) is Ok,
                    self.at_index(engine, truths, arith, i) == self.against_first(
                        engine,
                        truths,
                        arith,
                        i,
                        truths.len(),
                    ),
                    self.against_first(engine, truths, arith, i, g as nat) is Ok,
                decreases truths.len() - g,
            {
                let gt = &ground_truths[g];
                assert(Self::row_fits(truths, arith, g as int, n as nat));
                if rev_gt {
                    match self.reverse_vs_gt.check(engine, Some(gt), i, &arith.reverse_truth[g][i]) {
                        Err(e) => {
                            proof {
                                self.against_first_fails(
                                    engine,
                                    truths,
                                    arith,
                                    i,
                                    (g + 1) as nat,
                                    truths.len(),
                                );
                                self.upto_fails(engine, truths, arith, (i + 1) as nat, n as nat);
                            }
                            return Err(into_run(e));
                        },
                        Ok(_) => {},
                    }
                }
                if fwd_gt {
                    match self.forward_vs_gt.check(engine, Some(gt), i, &arith.forward_truth[g][i]) {
                        Err(e) => {
                            proof {
                                self.against_first_fails(
                                    engine,
                                    truths,
                                    arith,
                                    i,
                                    (g + 1) as nat,
                                    truths.len(),
                                );
                                self.upto_fails(engine, truths, arith, (i + 1) as nat, n as nat);
                            }
                            return Err(into_run(e));
                        },
                        Ok(_) => {},
                    }
                }
                g = g + 1;
            }
            i = i + 1;
        }
        Ok(())
    }
}

} // verus!
