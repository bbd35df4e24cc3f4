//! Random expressions from a byte buffer.
//!
//! Every decision of the generator is drawn from the buffer, left to right. A
//! draw that finds too few bytes ends the generation with
//! `GenerationError::Exhausted`; no decision falls back to a default.

use crate::ast_evaluator::{closed, closed_grows};
use crate::ast_expr::{Expr, Op1, Op2, Tree};
use crate::double;
use crate::entropy::{
    arbitrary_u64, bytes_wanted, int_in_range, little_endian, padded, picked, picked_in_range,
    ratio, remaining,
};
use crate::text::{var_name, variable_name};
use arbitrary::Unstructured;
use std::collections::HashSet;
use vstd::prelude::*;

verus! {

broadcast use vstd::std_specs::hash::group_hash_axioms;

/// What the generator may emit.
#[derive(Debug, Clone, Copy)]
pub struct AstGenConfig {
    /// No path from the root is longer than this.
    pub max_depth: usize,
    /// No more than this many distinct variables are referenced.
    pub max_variables: usize,
    pub allow_division: bool,
    pub allow_power: bool,
    pub allow_log: bool,
}

impl Default for AstGenConfig {
    fn default() -> (c: Self)
        ensures
            c.max_depth == 5,
            c.max_variables == 2,
            c.allow_division,
            c.allow_power,
            !c.allow_log,
    {
        AstGenConfig {
            max_depth: 5,
            max_variables: 2,
            allow_division: true,
            allow_power: true,
            allow_log: false,
        }
    }
}

/// Why no expression was generated.
#[derive(Debug, Clone, Copy, PartialEq, Eq, Structural)]
pub enum GenerationError {
    /// A decision found too few bytes left in the buffer.
    Exhausted,
    /// The configuration allows no variable at all, or more than can be counted
    /// in 32 bits.
    InvalidConfig,
}

/// A generated expression with the variables it refers to.
#[derive(Debug)]
pub struct GeneratedExpr {
    pub expr: Expr<()>,
    /// The indices `i` of the variables `x_i` that the expression refers to.
    pub used_vars: HashSet<usize>,
    /// The number of those indices.
    pub num_inputs: usize,
}

impl AstGenConfig {
    /// Whether the generator accepts the configuration.
    pub open spec fn valid(self) -> bool {
        1 <= self.max_variables <= u32::MAX
    }

    /// The number of binary operators that the configuration enables.
    pub open spec fn binary_choices(self) -> nat {
        3 + if self.allow_division {
            1nat
        } else {
            0nat
        } + if self.allow_power {
            1nat
        } else {
            0nat
        }
    }
}

/// Where a step of the generation ends: with a tree or an error, the bytes that
/// are left, and the number of variables introduced so far.
pub struct Outcome {
    pub result: Result<Tree, GenerationError>,
    pub rest: Seq<u8>,
    pub vars: nat,
}

/// One decision among `lo..=hi`: the value and the bytes left, or nothing where
/// the bytes do not suffice.
pub open spec fn spec_draw(bytes: Seq<u8>, lo: u32, hi: u32) -> Option<(u32, Seq<u8>)> {
    if bytes.len() < bytes_wanted((hi - lo) as u32) {
        None
    } else {
        Some((picked(bytes, lo, hi), bytes.skip(bytes_wanted((hi - lo) as u32) as int)))
    }
}

/// One decision that favours `numerator` cases of `denominator`: the answer and
/// the bytes left, or nothing where the bytes do not suffice.
pub open spec fn spec_ratio(bytes: Seq<u8>, numerator: u32, denominator: u32) -> Option<
    (bool, Seq<u8>),
> {
    if bytes.len() < bytes_wanted((denominator - 1) as u32) {
        None
    } else {
        Some(
            (
                picked(bytes, 1, denominator) <= numerator,
                bytes.skip(bytes_wanted((denominator - 1) as u32) as int),
            ),
        )
    }
}

/// The end of a step that found too few bytes.
pub open spec fn exhausted(bytes: Seq<u8>, vars: nat) -> Outcome {
    Outcome { result: Err(GenerationError::Exhausted), rest: bytes, vars }
}

/// The end of a step that made a tree.
pub open spec fn done(tree: Tree, bytes: Seq<u8>, vars: nat) -> Outcome {
    Outcome { result: Ok(tree), rest: bytes, vars }
}

/// A reference to a variable that is already in use, chosen by the bytes.
pub open spec fn spec_reuse(bytes: Seq<u8>, vars: nat) -> Outcome
    recommends
        1 <= vars <= u32::MAX,
{
    match spec_draw(bytes, 0, (vars - 1) as u32) {
        None => exhausted(bytes, vars),
        Some((j, rest)) => done(Tree::Id(var_name(j as nat)), rest, vars),
    }
}

/// A variable reference. The first one introduces `x_0`. Later ones reuse a
/// variable where the budget is spent, and otherwise reuse one with the odds
/// `vars` in `max_variables`, or else introduce the next index.
pub open spec fn spec_variable(bytes: Seq<u8>, config: AstGenConfig, vars: nat) -> Outcome
    recommends
        config.valid(),
        vars <= config.max_variables,
{
    if bytes.len() == 0 {
        exhausted(bytes, vars)
    } else if vars == 0 {
        done(Tree::Id(var_name(0)), bytes, 1)
    } else if vars == config.max_variables {
        spec_reuse(bytes, vars)
    } else {
        match spec_ratio(bytes, vars as u32, config.max_variables as u32) {
            None => exhausted(bytes, vars),
            Some((reuse, rest)) => if reuse {
                spec_reuse(rest, vars)
            } else {
                done(Tree::Id(var_name(vars)), rest, vars + 1)
            },
        }
    }
}

/// A literal drawn from eight bytes and restricted to `[-10, 10]`. Bytes that
/// spell no number give 1.
pub open spec fn clamped_literal(raw: u64) -> u64 {
    if double::spec_is_nan(raw) {
        double::ONE
    } else {
        double::spec_clamp(raw, double::MINUS_TEN, double::TEN)
    }
}

/// A literal drawn from eight bytes, made positive and restricted to `[0.1, 5]`.
/// Bytes that spell no number give 1.
pub open spec fn positive_literal(raw: u64) -> u64 {
    if double::spec_is_nan(raw) {
        double::ONE
    } else {
        double::spec_clamp(double::spec_magnitude(raw), double::TENTH, double::FIVE)
    }
}

/// The literal of a choice among five: 0, 1 and 2 for the first three, and for
/// the other two the drawn double, restricted in the one way or the other.
pub open spec fn literal_of(choice: u32, raw: u64) -> u64 {
    if choice == 0 {
        double::ZERO
    } else if choice == 1 {
        double::ONE
    } else if choice == 2 {
        double::TWO
    } else if choice == 3 {
        clamped_literal(raw)
    } else {
        positive_literal(raw)
    }
}

/// A literal: 0, 1, 2, or one of the two drawn kinds.
pub open spec fn spec_literal(bytes: Seq<u8>, vars: nat) -> Outcome {
    match spec_draw(bytes, 0, 4) {
        None => exhausted(bytes, vars),
        Some((choice, rest)) => if choice <= 2 {
            done(Tree::Number(literal_of(choice, 0)), rest, vars)
        } else if rest.len() < 8 {
            exhausted(rest, vars)
        } else {
            done(
                Tree::Number(literal_of(choice, little_endian(rest.take(8)) as u64)),
                rest.skip(8),
                vars,
            )
        },
    }
}

/// A leaf: a variable in two cases of five, else a literal.
pub open spec fn spec_terminal(bytes: Seq<u8>, config: AstGenConfig, vars: nat) -> Outcome {
    match spec_ratio(bytes, 2, 5) {
        None => exhausted(bytes, vars),
        Some((variable, rest)) => if variable {
            spec_variable(rest, config, vars)
        } else {
            spec_literal(rest, vars)
        },
    }
}

/// The unary operator of a choice among seven; the square root stands in for
/// the logarithm where the logarithm is not allowed.
pub open spec fn unary_op(choice: u32, allow_log: bool) -> Op1 {
    if choice == 0 {
        Op1::Neg
    } else if choice == 1 {
        Op1::Sin
    } else if choice == 2 {
        Op1::Cos
    } else if choice == 3 {
        Op1::Exp
    } else if choice == 4 {
        Op1::Sqrt
    } else if choice == 5 {
        if allow_log {
            Op1::Log
        } else {
            Op1::Sqrt
        }
    } else {
        Op1::Abs
    }
}

/// The binary operator of a choice among the enabled ones, which are listed as
/// addition, subtraction, multiplication, then division and power where allowed.
pub open spec fn binary_op(choice: u32, config: AstGenConfig) -> Op2 {
    if choice == 0 {
        Op2::Add
    } else if choice == 1 {
        Op2::Sub
    } else if choice == 2 {
        Op2::Mul
    } else if choice == 3 && config.allow_division {
        Op2::Div
    } else {
        Op2::Pow
    }
}

/// The expression that the bytes spell at the given depth, with `vars`
/// variables introduced before.
pub open spec fn spec_generate(bytes: Seq<u8>, config: AstGenConfig, depth: nat, vars: nat) -> Outcome
    decreases config.max_depth - depth,
{
    if depth >= config.max_depth {
        spec_terminal(bytes, config, vars)
    } else {
        match spec_draw(bytes, 0, 2) {
            None => exhausted(bytes, vars),
            Some((kind, rest)) => if kind == 0 {
                spec_terminal(rest, config, vars)
            } else if kind == 1 {
                let sub = spec_generate(rest, config, depth + 1, vars);
                match sub.result {
                    Err(_) => sub,
                    Ok(inner) => match spec_draw(sub.rest, 0, 6) {
                        None => exhausted(sub.rest, sub.vars),
                        Some((choice, after)) => done(
                            Tree::UnOp(unary_op(choice, config.allow_log), Box::new(inner)),
                            after,
                            sub.vars,
                        ),
                    },
                }
            } else {
                let left = spec_generate(rest, config, depth + 1, vars);
                match left.result {
                    Err(_) => left,
                    Ok(l) => {
                        let right = spec_generate(left.rest, config, depth + 1, left.vars);
                        match right.result {
                            Err(_) => right,
                            Ok(r) => match spec_draw(
                                right.rest,
                                0,
                                (config.binary_choices() - 1) as u32,
                            ) {
                                None => exhausted(right.rest, right.vars),
                                Some((choice, after)) => done(
                                    Tree::BinOp(
                                        binary_op(choice, config),
                                        Box::new(l),
                                        Box::new(r),
                                    ),
                                    after,
                                    right.vars,
                                ),
                            },
                        }
                    },
                }
            },
        }
    }
}

/// Whether a tree is one that the generator may make under a configuration:
/// its literals are no NaNs and lie between -10 and 10, its unary operators are
/// not the tangent, and the logarithm, the division and the power occur only
/// where they are allowed.
pub open spec fn well_made(tree: Tree, config: AstGenConfig) -> bool
    decreases tree,
{
    match tree {
        Tree::Number(bits) => !double::spec_is_nan(bits) && double::rank(double::MINUS_TEN)
            <= double::rank(bits) <= double::rank(double::TEN),
        Tree::Id(_) => true,
        Tree::UnOp(op, e) => op != Op1::Tan && (op == Op1::Log ==> config.allow_log) && well_made(
            *e,
            config,
        ),
        Tree::BinOp(op, l, r) => (op == Op2::Div ==> config.allow_division) && (op == Op2::Pow
            ==> config.allow_power) && well_made(*l, config) && well_made(*r, config),
        _ => false,
    }
}

/// Whether the tree refers to the input variable with index `j`.
pub open spec fn mentions(tree: Tree, j: nat) -> bool
    decreases tree,
{
    match tree {
        Tree::Id(name) => name == var_name(j),
        Tree::UnOp(_, e) => mentions(*e, j),
        Tree::BinOp(_, l, r) => mentions(*l, j) || mentions(*r, j),
        _ => false,
    }
}

/// Whether the tree refers to every input variable with an index from `from`
/// up to `to`, `to` itself left out.
pub open spec fn introduces(tree: Tree, from: nat, to: nat) -> bool {
    forall|j: nat| from <= j < to ==> mentions(tree, j)
}

/// The invariant of the generator's bookkeeping: the variables in use are
/// `0, 1, ..., n - 1`, and the stack lists them in that order.
pub open spec fn pool_ok(used: Set<usize>, stack: Seq<usize>) -> bool {
    &&& used.finite()
    &&& used.len() == stack.len()
    &&& forall|i: int| 0 <= i < stack.len() ==> stack[i] == i
    &&& forall|v: usize| used.contains(v) <==> v < stack.len()
}

/// How a step of the generator relates to its model: it ends where the model
/// ends, and an expression that it makes is the tree of the model, which is
/// made of literals, operators and the variables then in use.
pub open spec fn step_matches(
    r: Result<Expr<()>, GenerationError>,
    rest: Seq<u8>,
    used: Set<usize>,
    stack: Seq<usize>,
    out: Outcome,
) -> bool {
    &&& rest == out.rest
    &&& pool_ok(used, stack)
    &&& stack.len() == out.vars
    &&& match out.result {
        Ok(tree) => r is Ok && r->Ok_0@ == tree && closed(tree, out.vars),
        Err(e) => r is Err && r->Err_0 == e,
    }
}

fn wanted(span: u32) -> (n: usize)
    ensures
        n == bytes_wanted(span),
{
    if span == 0 {
        0
    } else if span < 0x100 {
        1
    } else if span < 0x1_0000 {
        2
    } else if span < 0x100_0000 {
        3
    } else {
        4
    }
}

/// One decision among `lo..=hi`, refused where the bytes do not suffice.
fn draw(u: &mut Unstructured, lo: u32, hi: u32) -> (r: Result<u32, GenerationError>)
    requires
        lo <= hi,
    ensures
        match spec_draw(remaining(*old(u)), lo, hi) {
            Some((v, rest)) => r == Ok::<u32, GenerationError>(v) && remaining(*final(u)) == rest
                && lo <= v <= hi,
            None => r == Err::<u32, GenerationError>(GenerationError::Exhausted) && remaining(
                *final(u),
            ) == remaining(*old(u)),
        },
{
    if u.len() < wanted(hi - lo) {
        return Err(GenerationError::Exhausted);
    }
    proof {
        picked_in_range(remaining(*u), lo, hi);
    }
    match int_in_range(u, lo, hi) {
        Ok(v) => Ok(v),
        Err(_) => Err(GenerationError::Exhausted),
    }
}

/// One decision that comes out true in `numerator` cases of `denominator`.
fn draw_ratio(u: &mut Unstructured, numerator: u32, denominator: u32) -> (r: Result<
    bool,
    GenerationError,
>)
    requires
        0 < numerator <= denominator,
    ensures
        match spec_ratio(remaining(*old(u)), numerator, denominator) {
            Some((b, rest)) => r == Ok::<bool, GenerationError>(b) && remaining(*final(u)) == rest,
            None => r == Err::<bool, GenerationError>(GenerationError::Exhausted) && remaining(
                *final(u),
            ) == remaining(*old(u)),
        },
{
    if u.len() < wanted(denominator - 1) {
        return Err(GenerationError::Exhausted);
    }
    match ratio(u, numerator, denominator) {
        Ok(b) => Ok(b),
        Err(_) => Err(GenerationError::Exhausted),
    }
}

/// Eight bytes as the bits of a double, refused where fewer are left.
fn draw_bits(u: &mut Unstructured) -> (r: Result<u64, GenerationError>)
    ensures
        remaining(*old(u)).len() >= 8 ==> r == Ok::<u64, GenerationError>(
            little_endian(remaining(*old(u)).take(8)) as u64,
        ) && remaining(*final(u)) == remaining(*old(u)).skip(8),
        remaining(*old(u)).len() < 8 ==> r == Err::<u64, GenerationError>(
            GenerationError::Exhausted,
        ) && remaining(*final(u)) == remaining(*old(u)),
{
    if u.len() < 8 {
        return Err(GenerationError::Exhausted);
    }
    assert(padded(remaining(*u), 8) =~= remaining(*u).take(8));
    match arbitrary_u64(u) {
        Ok(bits) => Ok(bits),
        Err(_) => Err(GenerationError::Exhausted),
    }
}

/// The unary operator of a choice among seven, the logarithm not among them.
pub open spec fn any_unary_op(choice: u32) -> Op1 {
    if choice == 0 {
        Op1::Neg
    } else if choice == 1 {
        Op1::Sin
    } else if choice == 2 {
        Op1::Cos
    } else if choice == 3 {
        Op1::Exp
    } else if choice == 4 {
        Op1::Sqrt
    } else if choice == 5 {
        Op1::Abs
    } else {
        Op1::Tan
    }
}

/// The binary operator of a choice among five.
pub open spec fn any_binary_op(choice: u32) -> Op2 {
    if choice == 0 {
        Op2::Add
    } else if choice == 1 {
        Op2::Sub
    } else if choice == 2 {
        Op2::Mul
    } else if choice == 3 {
        Op2::Div
    } else {
        Op2::Pow
    }
}

/// The unary operator of a choice among seven, the logarithm not among them.
pub fn any_unary_operator(choice: u32) -> (op: Op1)
    ensures
        op == any_unary_op(choice),
{
    if choice == 0 {
        Op1::Neg
    } else if choice == 1 {
        Op1::Sin
    } else if choice == 2 {
        Op1::Cos
    } else if choice == 3 {
        Op1::Exp
    } else if choice == 4 {
        Op1::Sqrt
    } else if choice == 5 {
        Op1::Abs
    } else {
        Op1::Tan
    }
}

/// The binary operator of a choice among five.
pub fn any_binary_operator(choice: u32) -> (op: Op2)
    ensures
        op == any_binary_op(choice),
{
    if choice == 0 {
        Op2::Add
    } else if choice == 1 {
        Op2::Sub
    } else if choice == 2 {
        Op2::Mul
    } else if choice == 3 {
        Op2::Div
    } else {
        Op2::Pow
    }
}

/// Draws a unary operator other than the logarithm, whatever a configuration
/// allows.
pub fn arbitrary_op1(u: &mut Unstructured) -> (r: Result<Op1, GenerationError>)
    ensures
        match spec_draw(remaining(*old(u)), 0, 6) {
            Some((choice, rest)) => r == Ok::<Op1, GenerationError>(any_unary_op(choice))
                && remaining(*final(u)) == rest,
            None => r == Err::<Op1, GenerationError>(GenerationError::Exhausted) && remaining(
                *final(u),
            ) == remaining(*old(u)),
        },
{
    match draw(u, 0, 6) {
        Err(e) => Err(e),
        Ok(choice) => Ok(any_unary_operator(choice)),
    }
}

/// Draws a binary operator, whatever a configuration allows.
pub fn arbitrary_op2(u: &mut Unstructured) -> (r: Result<Op2, GenerationError>)
    ensures
        match spec_draw(remaining(*old(u)), 0, 4) {
            Some((choice, rest)) => r == Ok::<Op2, GenerationError>(any_binary_op(choice))
                && remaining(*final(u)) == rest,
            None => r == Err::<Op2, GenerationError>(GenerationError::Exhausted) && remaining(
                *final(u),
            ) == remaining(*old(u)),
        },
{
    match draw(u, 0, 4) {
        Err(e) => Err(e),
        Ok(choice) => Ok(any_binary_operator(choice)),
    }
}

/// Generates a reference to a variable that is already in use.
fn generate_reuse(u: &mut Unstructured, used_vars: &HashSet<usize>, var_stack: &Vec<usize>) -> (r:
    Result<Expr<()>, GenerationError>)
    requires
        pool_ok(used_vars@, var_stack@),
        1 <= var_stack@.len() <= u32::MAX,
    ensures
        step_matches(
            r,
            remaining(*final(u)),
            used_vars@,
            var_stack@,
            spec_reuse(remaining(*old(u)), var_stack@.len()),
        ),
{
    let last: u32 = (used_vars.len() - 1) as u32;
    match draw(u, 0, last) {
        Err(e) => Err(e),
        Ok(j) => {
            let index = var_stack[j as usize];
            Ok(Expr::Id((), variable_name(index)))
        },
    }
}

/// Generates a leaf: a variable reference or a literal.
fn generate_terminal(
    u: &mut Unstructured,
    config: &AstGenConfig,
    used_vars: &mut HashSet<usize>,
    var_stack: &mut Vec<usize>,
) -> (r: Result<Expr<()>, GenerationError>)
    requires
        config.valid(),
        pool_ok(old(used_vars)@, old(var_stack)@),
        old(var_stack)@.len() <= config.max_variables,
    ensures
        step_matches(
            r,
            remaining(*final(u)),
            final(used_vars)@,
            final(var_stack)@,
            spec_terminal(remaining(*old(u)), *config, old(var_stack)@.len()),
        ),
        old(var_stack)@.len() <= final(var_stack)@.len() <= config.max_variables,
        final(var_stack)@.len() == old(var_stack)@.len() ==> final(var_stack)@ == old(var_stack)@
            && final(used_vars)@ == old(used_vars)@,
        r is Ok ==> introduces(r->Ok_0@, old(var_stack)@.len(), final(var_stack)@.len()),
        r is Ok ==> well_made(r->Ok_0@, *config),
{
    let variable = match draw_ratio(u, 2, 5) {
        Err(e) => {
            return Err(e);
        },
        Ok(b) => b,
    };
    if variable {
        if u.is_empty() {
            return Err(GenerationError::Exhausted);
        }
        let num_used = used_vars.len();
        let num_available = config.max_variables - var_stack.len();
        if num_used == 0 {
            var_stack.push(0);
            used_vars.insert(0);
            Ok(Expr::Id((), variable_name(0)))
        } else if num_available == 0 {
            generate_reuse(u, used_vars, var_stack)
        } else {
            let reuse = match draw_ratio(u, num_used as u32, (num_used + num_available) as u32) {
                Err(e) => {
                    return Err(e);
                },
                Ok(b) => b,
            };
            if reuse {
                generate_reuse(u, used_vars, var_stack)
            } else {
                let new_idx = var_stack.len();
                var_stack.push(new_idx);
                used_vars.insert(new_idx);
                Ok(Expr::Id((), variable_name(new_idx)))
            }
        }
    } else {
        let choice = match draw(u, 0, 4) {
            Err(e) => {
                return Err(e);
            },
            Ok(c) => c,
        };
        if choice <= 2 {
            Ok(Expr::Number((), literal(choice, 0)))
        } else {
            let raw = match draw_bits(u) {
                Err(e) => {
                    return Err(e);
                },
                Ok(bits) => bits,
            };
            Ok(Expr::Number((), literal(choice, raw)))
        }
    }
}

/// The literal of a choice among five and a drawn double.
pub fn literal(choice: u32, raw: u64) -> (bits: u64)
    ensures
        bits == literal_of(choice, raw),
        !double::spec_is_nan(bits),
        double::rank(double::MINUS_TEN) <= double::rank(bits) <= double::rank(double::TEN),
{
    proof {
        literals_are_small(choice, raw);
    }
    if choice == 0 {
        double::ZERO
    } else if choice == 1 {
        double::ONE
    } else if choice == 2 {
        double::TWO
    } else if double::is_nan(raw) {
        double::ONE
    } else if choice == 3 {
        double::clamp(raw, double::MINUS_TEN, double::TEN)
    } else {
        double::clamp(double::magnitude(raw), double::TENTH, double::FIVE)
    }
}

/// The unary operator of a choice among seven.
pub fn unary_operator(choice: u32, allow_log: bool) -> (op: Op1)
    ensures
        op == unary_op(choice, allow_log),
{
    if choice == 0 {
        Op1::Neg
    } else if choice == 1 {
        Op1::Sin
    } else if choice == 2 {
        Op1::Cos
    } else if choice == 3 {
        Op1::Exp
    } else if choice == 4 {
        Op1::Sqrt
    } else if choice == 5 {
        if allow_log {
            Op1::Log
        } else {
            Op1::Sqrt
        }
    } else {
        Op1::Abs
    }
}

/// The binary operator of a choice among the enabled ones.
pub fn binary_operator(choice: u32, config: &AstGenConfig) -> (op: Op2)
    ensures
        op == binary_op(choice, *config),
{
    if choice == 0 {
        Op2::Add
    } else if choice == 1 {
        Op2::Sub
    } else if choice == 2 {
        Op2::Mul
    } else if choice == 3 && config.allow_division {
        Op2::Div
    } else {
        Op2::Pow
    }
}

/// Generates a unary node over a generated operand.
#[verifier::rlimit(30)]
fn generate_unary(
    u: &mut Unstructured,
    config: &AstGenConfig,
    depth: usize,
    used_vars: &mut HashSet<usize>,
    var_stack: &mut Vec<usize>,
) -> (r: Result<Expr<()>, GenerationError>)
    requires
        config.valid(),
        depth < config.max_depth,
        pool_ok(old(used_vars)@, old(var_stack)@),
        old(var_stack)@.len() <= config.max_variables,
    ensures
        old(var_stack)@.len() <= final(var_stack)@.len() <= config.max_variables,
        final(var_stack)@.len() == old(var_stack)@.len() ==> final(var_stack)@ == old(var_stack)@
            && final(used_vars)@ == old(used_vars)@,
        r is Ok ==> introduces(r->Ok_0@, old(var_stack)@.len(), final(var_stack)@.len()),
        r is Ok ==> well_made(r->Ok_0@, *config),
        r is Ok ==> r->Ok_0@.depth() + depth <= config.max_depth,
        ({
            let sub = spec_generate(
                remaining(*old(u)),
                *config,
                (depth + 1) as nat,
                old(var_stack)@.len(),
            );
            step_matches(
                r,
                remaining(*final(u)),
                final(used_vars)@,
                final(var_stack)@,
                match sub.result {
                    Err(_) => sub,
                    Ok(inner) => match spec_draw(sub.rest, 0, 6) {
                        None => exhausted(sub.rest, sub.vars),
                        Some((choice, after)) => done(
                            Tree::UnOp(unary_op(choice, config.allow_log), Box::new(inner)),
                            after,
                            sub.vars,
                        ),
                    },
                },
            )
        }),
    decreases config.max_depth - depth, 0nat,
{
    let sub_expr = match generate_expr_arbitrary(u, config, depth + 1, used_vars, var_stack) {
        Err(e) => {
            return Err(e);
        },
        Ok(e) => e,
    };
    let ghost inner = sub_expr@;
    let ghost from = old(var_stack)@.len();
    let ghost to = var_stack@.len();
    match draw(u, 0, 6) {
        Err(e) => Err(e),
        Ok(choice) => {
            let result = Expr::UnOp(
                (),
                unary_operator(choice, config.allow_log),
                Box::new(sub_expr),
            );
            proof {
                assert forall|j: nat| from <= j < to implies mentions(result@, j) by {
                    assert(mentions(inner, j));
                }
                assert(well_made(inner, *config));
            }
            Ok(result)
        },
    }
}

/// Generates a binary node over two generated operands, the left one first.
#[verifier::rlimit(30)]
fn generate_binary(
    u: &mut Unstructured,
    config: &AstGenConfig,
    depth: usize,
    used_vars: &mut HashSet<usize>,
    var_stack: &mut Vec<usize>,
) -> (r: Result<Expr<()>, GenerationError>)
    requires
        config.valid(),
        depth < config.max_depth,
        pool_ok(old(used_vars)@, old(var_stack)@),
        old(var_stack)@.len() <= config.max_variables,
    ensures
        old(var_stack)@.len() <= final(var_stack)@.len() <= config.max_variables,
        final(var_stack)@.len() == old(var_stack)@.len() ==> final(var_stack)@ == old(var_stack)@
            && final(used_vars)@ == old(used_vars)@,
        r is Ok ==> introduces(r->Ok_0@, old(var_stack)@.len(), final(var_stack)@.len()),
        r is Ok ==> well_made(r->Ok_0@, *config),
        r is Ok ==> r->Ok_0@.depth() + depth <= config.max_depth,
        ({
            let left = spec_generate(
                remaining(*old(u)),
                *config,
                (depth + 1) as nat,
                old(var_stack)@.len(),
            );
            step_matches(
                r,
                remaining(*final(u)),
                final(used_vars)@,
                final(var_stack)@,
                match left.result {
                    Err(_) => left,
                    Ok(l) => {
                        let right = spec_generate(
                            left.rest,
                            *config,
                            (depth + 1) as nat,
                            left.vars,
                        );
                        match right.result {
                            Err(_) => right,
                            Ok(r) => match spec_draw(
                                right.rest,
                                0,
                                (config.binary_choices() - 1) as u32,
                            ) {
                                None => exhausted(right.rest, right.vars),
                                Some((choice, after)) => done(
                                    Tree::BinOp(
                                        binary_op(choice, *config),
                                        Box::new(l),
                                        Box::new(r),
                                    ),
                                    after,
                                    right.vars,
                                ),
                            },
                        }
                    },
                },
            )
        }),
    decreases config.max_depth - depth, 0nat,
{
    let left = match generate_expr_arbitrary(u, config, depth + 1, used_vars, var_stack) {
        Err(e) => {
            return Err(e);
        },
        Ok(e) => e,
    };
    let ghost left_vars = var_stack@.len();
    let right = match generate_expr_arbitrary(u, config, depth + 1, used_vars, var_stack) {
        Err(e) => {
            return Err(e);
        },
        Ok(e) => e,
    };
    let ghost first = left@;
    let ghost second = right@;
    let ghost from = old(var_stack)@.len();
    let ghost to = var_stack@.len();
    proof {
        closed_grows(left@, left_vars, var_stack@.len());
    }
    let mut num_ops: u32 = 3;
    if config.allow_division {
        num_ops = num_ops + 1;
    }
    if config.allow_power {
        num_ops = num_ops + 1;
    }
    match draw(u, 0, num_ops - 1) {
        Err(e) => Err(e),
        Ok(choice) => {
            let result = Expr::BinOp(
                (),
                binary_operator(choice, config),
                Box::new(left),
                Box::new(right),
            );
            proof {
                assert forall|j: nat| from <= j < to implies mentions(result@, j) by {
                    if j < left_vars {
                        assert(mentions(first, j));
                    } else {
                        assert(mentions(second, j));
                    }
                }
                assert(well_made(first, *config) && well_made(second, *config));
            }
            Ok(result)
        },
    }
}

/// Generates the expression that the bytes of `u` spell at the given depth.
///
/// At `max_depth` or below it only a leaf is generated; above it the bytes
/// choose among a leaf, a unary node and a binary node. `used_vars` and
/// `var_stack` carry the variables in use from one call to the next.
pub fn generate_expr_arbitrary(
    u: &mut Unstructured,
    config: &AstGenConfig,
    depth: usize,
    used_vars: &mut HashSet<usize>,
    var_stack: &mut Vec<usize>,
) -> (r: Result<Expr<()>, GenerationError>)
    requires
        config.valid(),
        pool_ok(old(used_vars)@, old(var_stack)@),
        old(var_stack)@.len() <= config.max_variables,
    ensures
        step_matches(
            r,
            remaining(*final(u)),
            final(used_vars)@,
            final(var_stack)@,
            spec_generate(remaining(*old(u)), *config, depth as nat, old(var_stack)@.len()),
        ),
        old(var_stack)@.len() <= final(var_stack)@.len() <= config.max_variables,
        final(var_stack)@.len() == old(var_stack)@.len() ==> final(var_stack)@ == old(var_stack)@
            && final(used_vars)@ == old(used_vars)@,
        r is Ok ==> introduces(r->Ok_0@, old(var_stack)@.len(), final(var_stack)@.len()),
        r is Ok ==> well_made(r->Ok_0@, *config),
        r is Ok && depth <= config.max_depth ==> r->Ok_0@.depth() + depth <= config.max_depth,
        r is Ok && depth > config.max_depth ==> r->Ok_0@.depth() == 0,
    decreases config.max_depth - depth, 1nat,
{
    if depth >= config.max_depth {
        return generate_terminal(u, config, used_vars, var_stack);
    }
    let kind = match draw(u, 0, 2) {
        Err(e) => {
            return Err(e);
        },
        Ok(k) => k,
    };
    if kind == 0 {
        generate_terminal(u, config, used_vars, var_stack)
    } else if kind == 1 {
        generate_unary(u, config, depth, used_vars, var_stack)
    } else {
        generate_binary(u, config, depth, used_vars, var_stack)
    }
}

/// Generates one expression from `data`.
///
/// The result is the expression that the bytes spell from depth 0 with no
/// variable in use. Its depth is at most `max_depth`; the variables it refers
/// to are `x_0` to `x_{num_inputs - 1}`, and there are at most `max_variables`
/// of them.
pub fn generate_from_bytes(data: &[u8], config: AstGenConfig) -> (r: Result<
    GeneratedExpr,
    GenerationError,
>)
    ensures
        !config.valid() ==> r is Err && r->Err_0 == GenerationError::InvalidConfig,
        config.valid() ==> match spec_generate(data@, config, 0, 0).result {
            Ok(tree) => r is Ok && r->Ok_0.expr@ == tree,
            Err(e) => r is Err && r->Err_0 == e,
        },
        r is Ok ==> {
            let g = r->Ok_0;
            &&& g.expr@.depth() <= config.max_depth
            &&& g.num_inputs == spec_generate(data@, config, 0, 0).vars
            &&& g.num_inputs <= config.max_variables
            &&& g.used_vars@ == Set::new(|i: usize| i < g.num_inputs)
            &&& closed(g.expr@, g.num_inputs as nat)
            &&& introduces(g.expr@, 0, g.num_inputs as nat)
            &&& well_made(g.expr@, config)
        },
{
    if config.max_variables == 0 || config.max_variables > 0xFFFF_FFFF {
        return Err(GenerationError::InvalidConfig);
    }
    let mut u = Unstructured::new(data);
    let mut used_vars: HashSet<usize> = HashSet::new();
    let mut var_stack: Vec<usize> = Vec::new();
    match generate_expr_arbitrary(&mut u, &config, 0, &mut used_vars, &mut var_stack) {
        Err(e) => Err(e),
        Ok(expr) => {
            let num_inputs = used_vars.len();
            assert(used_vars@ =~= Set::new(|i: usize| i < num_inputs));
            Ok(GeneratedExpr { expr, used_vars, num_inputs })
        },
    }
}

/// A literal is never a NaN and lies between -10 and 10, whatever was drawn;
/// one of the positive kind lies between 0.1 and 5.
pub proof fn literals_are_small(choice: u32, raw: u64)
    ensures
        !double::spec_is_nan(literal_of(choice, raw)),
        double::rank(double::MINUS_TEN) <= double::rank(literal_of(choice, raw)) <= double::rank(
            double::TEN,
        ),
        choice >= 4 ==> double::rank(double::TENTH) <= double::rank(literal_of(choice, raw))
            <= double::rank(double::FIVE),
{
    double::clamp_in_bounds(raw, double::MINUS_TEN, double::TEN);
    double::clamp_in_bounds(double::spec_magnitude(raw), double::TENTH, double::FIVE);
}

/// A leaf has depth 0.
pub proof fn terminal_is_flat(bytes: Seq<u8>, config: AstGenConfig, vars: nat)
    ensures
        spec_terminal(bytes, config, vars).result is Ok ==> spec_terminal(
            bytes,
            config,
            vars,
        ).result->Ok_0.depth() == 0,
{
}

/// A tree generated at depth `depth` reaches no deeper than `max_depth`: no
/// path from its root is longer than what is left of the limit.
pub proof fn generated_is_shallow(bytes: Seq<u8>, config: AstGenConfig, depth: nat, vars: nat)
    ensures
        ({
            let out = spec_generate(bytes, config, depth, vars);
            out.result is Ok ==> if depth <= config.max_depth {
                out.result->Ok_0.depth() + depth <= config.max_depth
            } else {
                out.result->Ok_0.depth() == 0
            }
        }),
    decreases config.max_depth - depth,
{
    if depth >= config.max_depth {
        terminal_is_flat(bytes, config, vars);
    } else {
        match spec_draw(bytes, 0, 2) {
            None => {},
            Some((kind, rest)) => {
                if kind == 0 {
                    terminal_is_flat(rest, config, vars);
                } else if kind == 1 {
                    generated_is_shallow(rest, config, depth + 1, vars);
                } else {
                    generated_is_shallow(rest, config, depth + 1, vars);
                    let left = spec_generate(rest, config, depth + 1, vars);
                    if left.result is Ok {
                        generated_is_shallow(left.rest, config, depth + 1, left.vars);
                    }
                }
            },
        }
    }
}

} // verus!
