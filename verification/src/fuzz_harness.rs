//! The driver of one fuzz iteration.
//!
//! An iteration decodes the evaluation point from the front of the input,
//! rejects points outside the domain, generates the candidate programs from
//! the rest, and keeps those that refer to a variable. Running the engines on
//! them is the caller's part; what follows from a failed oracle is decided here
//! again, by the run mode.

use crate::ast_evaluator::{closed, EvalError, MainBackend};
use crate::ast_expr::Tree;
use crate::ast_generator::{
    generate_from_bytes, introduces, spec_generate, well_made, AstGenConfig, GeneratedExpr, Outcome,
};
use crate::double;
use crate::input_decoder::{decode_point, decoded};
use crate::oracles::{Figures, FiguresView, OracleError, OracleFault};
use crate::text::{
    eq_ignore_case, parse_flag, parse_number, parsed_flag, parsed_number, same_ignoring_case,
};
use vstd::prelude::*;
use vstd::slice::slice_subrange;

verus! {

/// A function of a point that any numeric backend can evaluate.
pub trait Calculator {
    /// Evaluates the function at the point `inputs`.
    fn eval_expr<T: MainBackend>(&self, inputs: &[T]) -> (r: Result<T, EvalError>);

    /// The number of coordinates of a point.
    fn num_inputs(&self) -> (n: usize);

    fn num_outputs(&self) -> (n: usize);
}

/// What happens when an oracle fails.
#[derive(Debug, Clone, Copy, PartialEq, Eq, Structural)]
pub enum HarnessMode {
    /// The first failure ends the process.
    PanicOnFirstError,
    /// Failures are reported and the run goes on.
    Continuous,
}

/// The settings of a run.
#[derive(Debug)]
pub struct FuzzConfig {
    pub mode: HarnessMode,
    /// The number of candidate programs of an iteration.
    pub num_generated_tests: usize,
    /// The selector of the oracles.
    pub oracle_selection: String,
}

impl Clone for FuzzConfig {
    fn clone(&self) -> (r: Self)
        ensures
            r.mode == self.mode,
            r.num_generated_tests == self.num_generated_tests,
            r.oracle_selection@ == self.oracle_selection@,
    {
        FuzzConfig {
            mode: self.mode,
            num_generated_tests: self.num_generated_tests,
            oracle_selection: self.oracle_selection.clone(),
        }
    }
}

/// The run mode that a setting spells: continuous for `continuous` in any case
/// of letters, else the one that stops at the first failure.
pub open spec fn mode_of(setting: Option<&str>) -> HarnessMode {
    match setting {
        Some(text) => if same_ignoring_case(text@, "continuous"@) {
            HarnessMode::Continuous
        } else {
            HarnessMode::PanicOnFirstError
        },
        None => HarnessMode::PanicOnFirstError,
    }
}

/// The number that a setting spells, or `default` where there is none or it
/// spells none.
pub open spec fn number_of(setting: Option<&str>, default: usize) -> usize {
    match setting {
        Some(text) => match parsed_number(text@) {
            Some(n) => n,
            None => default,
        },
        None => default,
    }
}

/// The number of candidate programs that a setting spells: a positive number,
/// else one.
pub open spec fn tests_of(setting: Option<&str>) -> usize {
    if number_of(setting, 1) == 0 {
        1
    } else {
        number_of(setting, 1)
    }
}

/// The truth value that a setting spells, or `default` where there is none or
/// it spells none.
pub open spec fn flag_of(setting: Option<&str>, default: bool) -> bool {
    match setting {
        Some(text) => match parsed_flag(text@) {
            Some(b) => b,
            None => default,
        },
        None => default,
    }
}

fn read_number(setting: Option<&str>, default: usize) -> (n: usize)
    ensures
        n == number_of(setting, default),
{
    match setting {
        Some(text) => match parse_number(text) {
            Some(n) => n,
            None => default,
        },
        None => default,
    }
}

fn read_flag(setting: Option<&str>, default: bool) -> (b: bool)
    ensures
        b == flag_of(setting, default),
{
    match setting {
        Some(text) => match parse_flag(text) {
            Some(b) => b,
            None => default,
        },
        None => default,
    }
}

/// The settings of a run from the values of `FUZZ_MODE`, `FUZZ_TESTS` and
/// `FUZZ_ORACLE`, each `None` where the variable is not set.
pub fn get_fuzz_config(mode: Option<&str>, tests: Option<&str>, oracle: Option<&str>) -> (c:
    FuzzConfig)
    ensures
        c.mode == mode_of(mode),
        c.num_generated_tests == tests_of(tests),
        c.oracle_selection@ == match oracle {
            Some(text) => text@,
            None => "all"@,
        },
{
    let mode = match mode {
        Some(text) => if eq_ignore_case(text, "continuous") {
            HarnessMode::Continuous
        } else {
            HarnessMode::PanicOnFirstError
        },
        None => HarnessMode::PanicOnFirstError,
    };
    let count = read_number(tests, 1);
    let num_generated_tests = if count == 0 {
        1
    } else {
        count
    };
    let oracle_selection = match oracle {
        Some(text) => String::from_str(text),
        None => String::from_str("all"),
    };
    FuzzConfig { mode, num_generated_tests, oracle_selection }
}

/// The settings of the generator from the values of `AST_MAX_DEPTH`,
/// `AST_ALLOW_DIVISION`, `AST_ALLOW_POWER`, `AST_ALLOW_LOG` and
/// `AST_MAX_VARIABLES`, each `None` where the variable is not set.
pub fn get_ast_config(
    max_depth: Option<&str>,
    allow_division: Option<&str>,
    allow_power: Option<&str>,
    allow_log: Option<&str>,
    max_variables: Option<&str>,
) -> (c: AstGenConfig)
    ensures
        c.max_depth == number_of(max_depth, 4),
        c.allow_division == flag_of(allow_division, true),
        c.allow_power == flag_of(allow_power, true),
        c.allow_log == flag_of(allow_log, false),
        c.max_variables == number_of(max_variables, 2),
{
    AstGenConfig {
        max_depth: read_number(max_depth, 4),
        max_variables: read_number(max_variables, 2),
        allow_division: read_flag(allow_division, true),
        allow_power: read_flag(allow_power, true),
        allow_log: read_flag(allow_log, false),
    }
}

/// The domain of one coordinate.
#[derive(Debug, Clone, Copy)]
pub struct Band {
    /// The bit pattern of the largest magnitude that the coordinate may have.
    pub max_magnitude: u64,
    /// Whether the coordinate must be above zero.
    pub positive_only: bool,
}

/// The domain of the evaluation points: one band for the first coordinate and
/// one for all others.
#[derive(Debug, Clone, Copy)]
pub struct DomainPolicy {
    pub first: Band,
    pub others: Band,
}

impl DomainPolicy {
    /// The band of coordinate `i`.
    pub open spec fn band(self, i: int) -> Band {
        if i == 0 {
            self.first
        } else {
            self.others
        }
    }
}

/// Whether a coordinate lies in its band: it is finite, its magnitude is not
/// above the limit, and it is above zero where that is asked for.
pub open spec fn acceptable(bits: u64, band: Band) -> bool {
    &&& double::spec_is_finite(bits)
    &&& !double::spec_lt(band.max_magnitude, double::spec_magnitude(bits))
    &&& band.positive_only ==> double::spec_lt(double::ZERO, bits)
}

/// Whether every coordinate lies in its band.
pub open spec fn all_acceptable(point: Seq<u64>, policy: DomainPolicy) -> bool {
    forall|i: int| 0 <= i < point.len() ==> acceptable(#[trigger] point[i], policy.band(i))
}

/// Checks a point against the domain.
pub fn sanitize(point: &Vec<u64>, policy: &DomainPolicy) -> (ok: bool)
    ensures
        ok == all_acceptable(point@, *policy),
{
    let mut i: usize = 0;
    while i < point.len()
        invariant
            i <= point@.len(),
            forall|j: int| 0 <= j < i ==> acceptable(#[trigger] point@[j], policy.band(j)),
        decreases point@.len() - i,
    {
        let bits = point[i];
        let band = if i == 0 {
            policy.first
        } else {
            policy.others
        };
        let ok = double::is_finite(bits) && !double::lt(band.max_magnitude, double::magnitude(bits))
            && (!band.positive_only || double::lt(double::ZERO, bits));
        if !ok {
            assert(!acceptable(point@[i as int], policy.band(i as int)));
            return false;
        }
        i = i + 1;
    }
    true
}

/// The bytes from which candidate `i` is generated: the rest of the input from
/// a stride of 32 bytes for each candidate before it, and the whole rest where
/// that lies beyond its end.
pub open spec fn window(rest: Seq<u8>, i: nat) -> Seq<u8> {
    if 32 * i < rest.len() {
        rest.skip((32 * i) as int)
    } else {
        rest
    }
}

/// The bytes from which candidate `i` is generated.
pub fn generation_window(rest: &[u8], i: usize) -> (w: &[u8])
    ensures
        w@ == window(rest@, i as nat),
{
    let length = rest.len();
    if i <= usize::MAX / 32 && i * 32 < length {
        let w = slice_subrange(rest, i * 32, length);
        assert(w@ =~= rest@.skip(32 * i as int));
        w
    } else {
        rest
    }
}

/// What the bytes of candidate `i` spell.
pub open spec fn candidate(rest: Seq<u8>, ast: AstGenConfig, i: nat) -> Outcome {
    spec_generate(window(rest, i), ast, 0, 0)
}

/// Whether candidate `i` is run: it was generated and refers to a variable.
pub open spec fn keeps(rest: Seq<u8>, ast: AstGenConfig, i: nat) -> bool {
    ast.valid() && candidate(rest, ast, i).result is Ok && candidate(rest, ast, i).vars >= 1
}

/// The programs that are run among the first `n` candidates, in order: each
/// with the number of its variables.
pub open spec fn kept(rest: Seq<u8>, ast: AstGenConfig, n: nat) -> Seq<(Tree, nat)>
    decreases n,
{
    if n == 0 {
        Seq::empty()
    } else if keeps(rest, ast, (n - 1) as nat) {
        kept(rest, ast, (n - 1) as nat).push(
            (
                candidate(rest, ast, (n - 1) as nat).result->Ok_0,
                candidate(rest, ast, (n - 1) as nat).vars,
            ),
        )
    } else {
        kept(rest, ast, (n - 1) as nat)
    }
}

/// The trees of the programs, each with the number of its variables.
pub open spec fn trees(programs: Seq<GeneratedExpr>) -> Seq<(Tree, nat)> {
    Seq::new(programs.len(), |i: int| (programs[i].expr@, programs[i].num_inputs as nat))
}

/// The evaluation point and the programs of one iteration.
#[derive(Debug)]
pub struct Iteration {
    pub inputs: Vec<u64>,
    pub programs: Vec<GeneratedExpr>,
}

/// What an iteration runs on the given input: nothing where the point cannot be
/// decoded or lies outside the domain, else the point and the programs kept.
pub open spec fn planned(
    data: Seq<u8>,
    tests: usize,
    ast: AstGenConfig,
    policy: DomainPolicy,
) -> Option<(Seq<u64>, Seq<(Tree, nat)>)> {
    match decoded(data, ast.max_variables as nat) {
        None => None,
        Some(point) => if all_acceptable(point, policy) {
            Some((point, kept(data.skip(8 * ast.max_variables), ast, tests as nat)))
        } else {
            None
        },
    }
}

/// Plans one iteration on the input `data`.
///
/// The point has one coordinate for each variable that the generator may use.
/// Every program that is handed out refers to at least one variable and to no
/// more than the point has coordinates.
pub fn plan_iteration(data: &[u8], config: &FuzzConfig, ast: &AstGenConfig, policy: &DomainPolicy) -> (r:
    Option<Iteration>)
    ensures
        match planned(data@, config.num_generated_tests, *ast, *policy) {
            None => r is None,
            Some((point, programs)) => r is Some && r->Some_0.inputs@ == point && trees(
                r->Some_0.programs@,
            ) == programs,
        },
        r is Some ==> forall|k: int|
            0 <= k < r->Some_0.programs@.len() ==> {
                let p = #[trigger] r->Some_0.programs@[k];
                &&& 1 <= p.num_inputs <= r->Some_0.inputs@.len()
                &&& p.expr@.depth() <= ast.max_depth
                &&& p.used_vars@ == Set::new(|i: usize| i < p.num_inputs)
                &&& closed(p.expr@, p.num_inputs as nat)
                &&& introduces(p.expr@, 0, p.num_inputs as nat)
                &&& well_made(p.expr@, *ast)
            },
{
    let inputs = match decode_point(data, ast.max_variables) {
        Ok(inputs) => inputs,
        Err(_) => {
            return None;
        },
    };
    if !sanitize(&inputs, policy) {
        return None;
    }
    let length = data.len();
    let rest = slice_subrange(data, 8 * ast.max_variables, length);
    assert(rest@ =~= data@.skip(8 * ast.max_variables));
    let mut programs: Vec<GeneratedExpr> = Vec::new();
    let mut i: usize = 0;
    assert(trees(programs@) =~= kept(rest@, *ast, 0));
    while i < config.num_generated_tests
        invariant
            i <= config.num_generated_tests,
            inputs@.len() == ast.max_variables,
            trees(programs@) == kept(rest@, *ast, i as nat),
            forall|k: int|
                0 <= k < programs@.len() ==> {
                    let p = #[trigger] programs@[k];
                    &&& 1 <= p.num_inputs <= ast.max_variables
                    &&& p.expr@.depth() <= ast.max_depth
                    &&& p.used_vars@ == Set::new(|i: usize| i < p.num_inputs)
                    &&& closed(p.expr@, p.num_inputs as nat)
                    &&& introduces(p.expr@, 0, p.num_inputs as nat)
                    &&& well_made(p.expr@, *ast)
                },
        decreases config.num_generated_tests - i,
    {
        match generate_from_bytes(generation_window(rest, i), *ast) {
            Ok(generated) => {
                if generated.num_inputs > 0 {
                    let ghost before = programs@;
                    let ghost tree = generated.expr@;
                    let ghost arity = generated.num_inputs as nat;
                    programs.push(generated);
                    assert(trees(programs@) =~= trees(before).push((tree, arity)));
                }
            },
            Err(_) => {},
        }
        i = i + 1;
    }
    Some(Iteration { inputs, programs })
}

/// What is done with a point that fits the function.
#[derive(Debug, Clone, Copy, PartialEq, Eq, Structural)]
pub enum Admission {
    /// The point has coordinates: the engines are run on it.
    Run,
    /// The point has no coordinate, and the function no input: there is
    /// nothing to differentiate, and the point is passed over.
    Skip,
}

/// What is done with a point of `given` coordinates for a function of
/// `expected` inputs: an error where the two numbers differ, so that no
/// coordinate is cut off or made up; else the point is run, or passed over
/// where it is empty.
pub open spec fn admitted(given: usize, expected: usize) -> Result<Admission, OracleFault> {
    if given != expected {
        Err(OracleFault::ArityMismatch { expected, given })
    } else if given == 0 {
        Ok(Admission::Skip)
    } else {
        Ok(Admission::Run)
    }
}

/// Decides what is done with a point of `given` coordinates for a function of
/// `expected` inputs.
pub fn admit_point(given: usize, expected: usize) -> (r: Result<Admission, OracleError>)
    ensures
        match admitted(given, expected) {
            Ok(a) => r is Ok && r->Ok_0 == a,
            Err(f) => r is Err && r->Err_0@ == f,
        },
{
    if given != expected {
        Err(OracleError::ArityMismatch { expected, given })
    } else if given == 0 {
        Ok(Admission::Skip)
    } else {
        Ok(Admission::Run)
    }
}

/// What the driver does after the oracles have run.
#[derive(Debug)]
pub enum Action {
    /// Nothing failed: go on.
    Proceed,
    /// Report the failure and go on.
    Report(String),
    /// Report the failure and end the process.
    Abort(String),
}

/// The model of an `Action`.
pub enum ActionView {
    Proceed,
    Report(Seq<char>),
    Abort(Seq<char>),
}

impl View for Action {
    type V = ActionView;

    open spec fn view(&self) -> ActionView {
        match self {
            Action::Proceed => ActionView::Proceed,
            Action::Report(text) => ActionView::Report(text@),
            Action::Abort(text) => ActionView::Abort(text@),
        }
    }
}

/// What follows from the outcome of the oracles under a run mode: a failure
/// ends the process in the one mode and is reported in the other.
pub open spec fn spec_escalate(
    mode: HarnessMode,
    outcome: Result<(), OracleFault>,
    figures: FiguresView,
) -> ActionView {
    match outcome {
        Ok(_) => ActionView::Proceed,
        Err(fault) => match mode {
            HarnessMode::PanicOnFirstError => ActionView::Abort(fault.message(figures)),
            HarnessMode::Continuous => ActionView::Report(fault.message(figures)),
        },
    }
}

/// Decides what follows from the outcome of the oracles. `figures` are the
/// figures of the mismatch, where the outcome is one, as they are to be read.
pub fn escalate(mode: HarnessMode, outcome: &Result<(), OracleError>, figures: &Figures) -> (a:
    Action)
    ensures
        a@ == spec_escalate(
            mode,
            match outcome {
                Ok(_) => Ok(()),
                Err(e) => Err(e@),
            },
            figures@,
        ),
{
    match outcome {
        Ok(_) => Action::Proceed,
        Err(e) => match mode {
            HarnessMode::PanicOnFirstError => Action::Abort(e.message(figures)),
            HarnessMode::Continuous => Action::Report(e.message(figures)),
        },
    }
}

} // verus!
