//! Evaluation of reverse Polish notation.
//!
//! The tokens are `x`, `y` and `2` for operands, `sin`, `exp` and `sqrt` for
//! functions of the top of the stack, `+` and `*` for operations on the two
//! values at the top, and `pow`, which squares: the value at the top must be
//! the constant two, and the one below it is the base.

use crate::ast_evaluator::ad_backend::models;
use crate::ast_evaluator::print_backend::{filled, PieceView};
use crate::ast_evaluator::{InfixString, MainBackend};
use crate::ast_expr::{Op1, Op2};
use crate::double;
use crate::test_definition::TestDefinition;
use crate::text::{lines, same_text};
use std::collections::HashMap;
use vstd::prelude::*;

verus! {

/// What a numeric type supplies to the evaluator of reverse Polish notation,
/// beyond the operations of a backend.
pub trait RpnEvalType: MainBackend {
    /// The model of the square of a value with model `x`.
    spec fn squared(x: Self::Model) -> Self::Model;

    /// What `same` decides of values with models `x` and `y`.
    spec fn alike(x: Self::Model, y: Self::Model) -> bool;

    /// The constant two.
    fn const_2() -> (r: Self)
        ensures
            r.model() == Self::literal(double::TWO),
    ;

    fn fun_sin(self) -> (r: Self)
        ensures
            r.model() == Self::unary(Op1::Sin, self.model()),
    ;

    fn fun_exp(self) -> (r: Self)
        ensures
            r.model() == Self::unary(Op1::Exp, self.model()),
    ;

    fn fun_sqrt(self) -> (r: Self)
        ensures
            r.model() == Self::unary(Op1::Sqrt, self.model()),
    ;

    fn op_add(self, other: Self) -> (r: Self)
        ensures
            r.model() == Self::binary(Op2::Add, self.model(), other.model()),
    ;

    fn op_mul(self, other: Self) -> (r: Self)
        ensures
            r.model() == Self::binary(Op2::Mul, self.model(), other.model()),
    ;

    /// The square.
    fn op_pow2(self) -> (r: Self)
        ensures
            r.model() == Self::squared(self.model()),
    ;

    /// Whether two values are equal.
    fn same(&self, other: &Self) -> (b: bool)
        ensures
            b == Self::alike(self.model(), other.model()),
    ;
}

/// The infix backend writes out what the tokens compute. Two texts are the
/// same value where they are made of the same pieces, so the exponent of a
/// `pow` must be the token `2`.
impl RpnEvalType for InfixString {
    open spec fn squared(x: Seq<PieceView>) -> Seq<PieceView> {
        seq![PieceView::Text("("@)] + x + seq![PieceView::Text(" ^ 2)"@)]
    }

    open spec fn alike(x: Seq<PieceView>, y: Seq<PieceView>) -> bool {
        x == y
    }

    fn const_2() -> (r: Self) {
        InfixString::from_f64(double::TWO)
    }

    fn fun_sin(self) -> (r: Self) {
        self.sin()
    }

    fn fun_exp(self) -> (r: Self) {
        self.exp()
    }

    fn fun_sqrt(self) -> (r: Self) {
        self.sqrt()
    }

    fn op_add(self, other: Self) -> (r: Self) {
        self.add(other)
    }

    fn op_mul(self, other: Self) -> (r: Self) {
        self.mul(other)
    }

    fn op_pow2(self) -> (r: Self) {
        self.squared()
    }

    fn same(&self, other: &Self) -> (b: bool) {
        self.same_text(other)
    }
}

/// The kinds of tokens.
#[derive(Debug, Clone, Copy, PartialEq, Eq, Structural)]
pub enum RpnToken {
    X,
    Y,
    Two,
    Sin,
    Exp,
    Sqrt,
    Add,
    Mul,
    Pow,
    Unknown,
}

/// Why a sequence of tokens has no value.
#[derive(Debug, Clone, Copy, PartialEq, Eq, Structural)]
pub enum RpnError {
    /// Fewer than two inputs were given.
    InsufficientInputs,
    /// The stack holds too few values for the function or operation.
    MissingOperand(RpnToken),
    /// `pow` on an empty stack.
    MissingExponent,
    /// `pow` on a stack of one value.
    MissingBase,
    /// `pow` with an exponent other than the constant two.
    UnsupportedPower,
    UnknownToken,
    /// No value is left on the stack at the end.
    EmptyStack,
}

/// The kind of the token with the given text.
pub open spec fn token_kind(text: Seq<char>) -> RpnToken {
    if text == "x"@ {
        RpnToken::X
    } else if text == "y"@ {
        RpnToken::Y
    } else if text == "2"@ {
        RpnToken::Two
    } else if text == "sin"@ {
        RpnToken::Sin
    } else if text == "exp"@ {
        RpnToken::Exp
    } else if text == "sqrt"@ {
        RpnToken::Sqrt
    } else if text == "+"@ {
        RpnToken::Add
    } else if text == "*"@ {
        RpnToken::Mul
    } else if text == "pow"@ {
        RpnToken::Pow
    } else {
        RpnToken::Unknown
    }
}

/// The stack after one token.
pub open spec fn rpn_step<T: RpnEvalType>(
    stack: Seq<T::Model>,
    token: RpnToken,
    x: T::Model,
    y: T::Model,
) -> Result<Seq<T::Model>, RpnError> {
    let n = stack.len() as int;
    match token {
        RpnToken::X => Ok(stack.push(x)),
        RpnToken::Y => Ok(stack.push(y)),
        RpnToken::Two => Ok(stack.push(T::literal(double::TWO))),
        RpnToken::Sin => if n == 0 {
            Err(RpnError::MissingOperand(token))
        } else {
            Ok(stack.drop_last().push(T::unary(Op1::Sin, stack[n - 1])))
        },
        RpnToken::Exp => if n == 0 {
            Err(RpnError::MissingOperand(token))
        } else {
            Ok(stack.drop_last().push(T::unary(Op1::Exp, stack[n - 1])))
        },
        RpnToken::Sqrt => if n == 0 {
            Err(RpnError::MissingOperand(token))
        } else {
            Ok(stack.drop_last().push(T::unary(Op1::Sqrt, stack[n - 1])))
        },
        RpnToken::Add => if n < 2 {
            Err(RpnError::MissingOperand(token))
        } else {
            Ok(stack.take(n - 2).push(T::binary(Op2::Add, stack[n - 2], stack[n - 1])))
        },
        RpnToken::Mul => if n < 2 {
            Err(RpnError::MissingOperand(token))
        } else {
            Ok(stack.take(n - 2).push(T::binary(Op2::Mul, stack[n - 2], stack[n - 1])))
        },
        RpnToken::Pow => if n == 0 {
            Err(RpnError::MissingExponent)
        } else if n == 1 {
            Err(RpnError::MissingBase)
        } else if T::alike(stack[n - 1], T::literal(double::TWO)) {
            Ok(stack.take(n - 2).push(T::squared(stack[n - 2])))
        } else {
            Err(RpnError::UnsupportedPower)
        },
        RpnToken::Unknown => Err(RpnError::UnknownToken),
    }
}

/// The stack after the first `n` tokens, from an empty stack.
pub open spec fn rpn_run<T: RpnEvalType>(
    tokens: Seq<Seq<char>>,
    x: T::Model,
    y: T::Model,
    n: nat,
) -> Result<Seq<T::Model>, RpnError>
    decreases n,
{
    if n == 0 || n > tokens.len() {
        Ok(Seq::empty())
    } else {
        match rpn_run::<T>(tokens, x, y, (n - 1) as nat) {
            Err(e) => Err(e),
            Ok(stack) => rpn_step::<T>(stack, token_kind(tokens[n - 1]), x, y),
        }
    }
}

/// The value of the tokens at the inputs: the top of the stack at the end.
pub open spec fn rpn_value<T: RpnEvalType>(tokens: Seq<Seq<char>>, inputs: Seq<T::Model>) -> Result<
    T::Model,
    RpnError,
> {
    if inputs.len() < 2 {
        Err(RpnError::InsufficientInputs)
    } else {
        match rpn_run::<T>(tokens, inputs[0], inputs[1], tokens.len()) {
            Err(e) => Err(e),
            Ok(stack) => if stack.len() == 0 {
                Err(RpnError::EmptyStack)
            } else {
                Ok(stack.last())
            },
        }
    }
}

/// Once a prefix of the tokens fails, every longer prefix fails in the same
/// way.
pub proof fn rpn_run_fails<T: RpnEvalType>(
    tokens: Seq<Seq<char>>,
    x: T::Model,
    y: T::Model,
    n: nat,
    m: nat,
)
    requires
        n <= m <= tokens.len(),
        rpn_run::<T>(tokens, x, y, n) is Err,
    ensures
        rpn_run::<T>(tokens, x, y, m) == rpn_run::<T>(tokens, x, y, n),
    decreases m,
{
    if n < m {
        rpn_run_fails::<T>(tokens, x, y, n, (m - 1) as nat);
    }
}

/// The kind of a token.
pub fn classify(token: &str) -> (kind: RpnToken)
    ensures
        kind == token_kind(token@),
{
    if same_text(token, "x") {
        RpnToken::X
    } else if same_text(token, "y") {
        RpnToken::Y
    } else if same_text(token, "2") {
        RpnToken::Two
    } else if same_text(token, "sin") {
        RpnToken::Sin
    } else if same_text(token, "exp") {
        RpnToken::Exp
    } else if same_text(token, "sqrt") {
        RpnToken::Sqrt
    } else if same_text(token, "+") {
        RpnToken::Add
    } else if same_text(token, "*") {
        RpnToken::Mul
    } else if same_text(token, "pow") {
        RpnToken::Pow
    } else {
        RpnToken::Unknown
    }
}

/// Takes the value at the top of the stack, if there is one.
fn pop<T: RpnEvalType>(stack: &mut Vec<T>) -> (r: Option<T>)
    ensures
        old(stack)@.len() == 0 ==> r is None && final(stack)@ == old(stack)@,
        old(stack)@.len() > 0 ==> r is Some && r->Some_0 == old(stack)@.last() && final(stack)@
            == old(stack)@.drop_last(),
{
    stack.pop()
}

/// Applies one token to the stack.
fn apply_token<T: RpnEvalType>(stack: &mut Vec<T>, kind: RpnToken, x: &T, y: &T) -> (r: Result<
    (),
    RpnError,
>)
    ensures
        match rpn_step::<T>(models(old(stack)@), kind, x.model(), y.model()) {
            Ok(after) => r is Ok && models(final(stack)@) == after,
            Err(e) => r == Err::<(), RpnError>(e),
        },
{
    let ghost before = models(stack@);
    let ghost n = before.len() as int;
    match kind {
        RpnToken::X => {
            stack.push(x.duplicate());
            assert(models(stack@) =~= before.push(x.model()));
            Ok(())
        },
        RpnToken::Y => {
            stack.push(y.duplicate());
            assert(models(stack@) =~= before.push(y.model()));
            Ok(())
        },
        RpnToken::Two => {
            stack.push(T::const_2());
            assert(models(stack@) =~= before.push(T::literal(double::TWO)));
            Ok(())
        },
        RpnToken::Sin => match pop(stack) {
            None => Err(RpnError::MissingOperand(kind)),
            Some(a) => {
                stack.push(a.fun_sin());
                assert(models(stack@) =~= before.drop_last().push(
                    T::unary(Op1::Sin, before[n - 1]),
                ));
                Ok(())
            },
        },
        RpnToken::Exp => match pop(stack) {
            None => Err(RpnError::MissingOperand(kind)),
            Some(a) => {
                stack.push(a.fun_exp());
                assert(models(stack@) =~= before.drop_last().push(
                    T::unary(Op1::Exp, before[n - 1]),
                ));
                Ok(())
            },
        },
        RpnToken::Sqrt => match pop(stack) {
            None => Err(RpnError::MissingOperand(kind)),
            Some(a) => {
                stack.push(a.fun_sqrt());
                assert(models(stack@) =~= before.drop_last().push(
                    T::unary(Op1::Sqrt, before[n - 1]),
                ));
                Ok(())
            },
        },
        RpnToken::Add => {
            let b = match pop(stack) {
                None => {
                    return Err(RpnError::MissingOperand(kind));
                },
                Some(b) => b,
            };
            let a = match pop(stack) {
                None => {
                    return Err(RpnError::MissingOperand(kind));
                },
                Some(a) => a,
            };
            stack.push(a.op_add(b));
            assert(models(stack@) =~= before.take(n - 2).push(
                T::binary(Op2::Add, before[n - 2], before[n - 1]),
            ));
            Ok(())
        },
        RpnToken::Mul => {
            let b = match pop(stack) {
                None => {
                    return Err(RpnError::MissingOperand(kind));
                },
                Some(b) => b,
            };
            let a = match pop(stack) {
                None => {
                    return Err(RpnError::MissingOperand(kind));
                },
                Some(a) => a,
            };
            stack.push(a.op_mul(b));
            assert(models(stack@) =~= before.take(n - 2).push(
                T::binary(Op2::Mul, before[n - 2], before[n - 1]),
            ));
            Ok(())
        },
        RpnToken::Pow => {
            let power = match pop(stack) {
                None => {
                    return Err(RpnError::MissingExponent);
                },
                Some(p) => p,
            };
            let base = match pop(stack) {
                None => {
                    return Err(RpnError::MissingBase);
                },
                Some(b) => b,
            };
            let two = T::const_2();
            if power.same(&two) {
                stack.push(base.op_pow2());
                assert(models(stack@) =~= before.take(n - 2).push(T::squared(before[n - 2])));
                Ok(())
            } else {
                Err(RpnError::UnsupportedPower)
            }
        },
        RpnToken::Unknown => Err(RpnError::UnknownToken),
    }
}

/// Evaluates the tokens at the inputs, of which the first two are `x` and `y`.
pub fn evaluate_rpn<T: RpnEvalType>(rpn_tokens: &[String], inputs: &[T]) -> (r: Result<T, RpnError>)
    ensures
        match rpn_value::<T>(lines(rpn_tokens@), models(inputs@)) {
            Ok(m) => r is Ok && r->Ok_0.model() == m,
            Err(e) => r is Err && r->Err_0 == e,
        },
{
    if inputs.len() < 2 {
        return Err(RpnError::InsufficientInputs);
    }
    let mut stack: Vec<T> = Vec::new();
    let ghost texts = lines(rpn_tokens@);
    let ghost x = inputs@[0].model();
    let ghost y = inputs@[1].model();
    assert(models(stack@) =~= Seq::<T::Model>::empty());
    let mut i: usize = 0;
    while i < rpn_tokens.len()
        invariant
            i <= rpn_tokens@.len(),
            inputs@.len() >= 2,
            texts == lines(rpn_tokens@),
            x == inputs@[0].model(),
            y == inputs@[1].model(),
            rpn_run::<T>(texts, x, y, i as nat) == Ok::<Seq<T::Model>, RpnError>(models(stack@)),
        decreases rpn_tokens@.len() - i,
    {
        let kind = classify(rpn_tokens[i].as_str());
        match apply_token(&mut stack, kind, &inputs[0], &inputs[1]) {
            Err(e) => {
                proof {
                    rpn_run_fails::<T>(texts, x, y, (i + 1) as nat, texts.len());
                }
                return Err(e);
            },
            Ok(_) => {},
        }
        i = i + 1;
    }
    match pop(&mut stack) {
        None => Err(RpnError::EmptyStack),
        Some(top) => Ok(top),
    }
}

/// The function that a test case defines.
#[derive(Debug)]
pub struct RpnEvaluator {
    pub definition: TestDefinition,
}

impl Clone for RpnEvaluator {
    fn clone(&self) -> (r: Self)
        ensures
            lines(r.definition.expression_rpn@) == lines(self.definition.expression_rpn@),
            r.definition.num_inputs == self.definition.num_inputs,
            r.definition.num_outputs == self.definition.num_outputs,
    {
        RpnEvaluator { definition: self.definition.clone() }
    }
}

impl RpnEvaluator {
    /// The value of the function at `inputs`, and zero where the tokens have
    /// none.
    pub fn eval_expr<T: RpnEvalType>(&self, inputs: &[T]) -> (r: T)
        ensures
            r.model() == match rpn_value::<T>(
                lines(self.definition.expression_rpn@),
                models(inputs@),
            ) {
                Ok(m) => m,
                Err(_) => T::zero_model(),
            },
    {
        match evaluate_rpn(self.definition.expression_rpn.as_slice(), inputs) {
            Ok(result) => result,
            Err(_) => T::zero(),
        }
    }

    /// The value of the function at `inputs` as its one output.
    pub fn compute<T: RpnEvalType>(&self, inputs: &[T]) -> (r: Result<Vec<T>, RpnError>)
        ensures
            match rpn_value::<T>(lines(self.definition.expression_rpn@), models(inputs@)) {
                Ok(m) => r is Ok && r->Ok_0@.len() == 1 && r->Ok_0@[0].model() == m,
                Err(e) => r is Err && r->Err_0 == e,
            },
    {
        match evaluate_rpn(self.definition.expression_rpn.as_slice(), inputs) {
            Ok(result) => {
                let mut outputs: Vec<T> = Vec::new();
                outputs.push(result);
                Ok(outputs)
            },
            Err(e) => Err(e),
        }
    }

    /// The infix text of what the tokens compute of the inputs `x` and `y`,
    /// with the literals written as `spelling` says, and the error in angle
    /// brackets where they compute nothing.
    pub fn expr_string(&self, spelling: &HashMap<u64, String>) -> (s: String)
        ensures
            s@ == match rpn_value::<InfixString>(
                lines(self.definition.expression_rpn@),
                seq![seq![PieceView::Text("x"@)], seq![PieceView::Text("y"@)]],
            ) {
                Ok(parts) => filled(parts, spelling@),
                Err(e) => "<error: "@ + e.spec_message() + ">"@,
            },
    {
        let mut inputs: Vec<InfixString> = Vec::new();
        inputs.push(InfixString::name("x"));
        inputs.push(InfixString::name("y"));
        assert(models(inputs@) =~= seq![seq![PieceView::Text("x"@)], seq![PieceView::Text("y"@)]]);
        match evaluate_rpn(self.definition.expression_rpn.as_slice(), inputs.as_slice()) {
            Ok(text) => text.into_string(spelling),
            Err(e) => {
                let mut s = String::from_str("<error: ");
                s.append(e.message());
                s.append(">");
                s
            },
        }
    }

    /// The number of inputs of the test case.
    pub fn num_inputs(&self) -> (n: usize)
        ensures
            n == self.definition.num_inputs,
    {
        self.definition.num_inputs
    }

    /// The number of outputs of the test case.
    pub fn num_outputs(&self) -> (n: usize)
        ensures
            n == self.definition.num_outputs,
    {
        self.definition.num_outputs
    }
}

impl RpnError {
    /// The text of the error.
    pub open spec fn spec_message(self) -> Seq<char> {
        match self {
            RpnError::InsufficientInputs => "Insufficient inputs"@,
            RpnError::MissingOperand(RpnToken::Sin) => "RPN: Missing operand for sin"@,
            RpnError::MissingOperand(RpnToken::Exp) => "RPN: Missing operand for exp"@,
            RpnError::MissingOperand(RpnToken::Sqrt) => "RPN: Missing operand for sqrt"@,
            RpnError::MissingOperand(RpnToken::Add) => "RPN: Missing operand for +"@,
            RpnError::MissingOperand(RpnToken::Mul) => "RPN: Missing operand for *"@,
            RpnError::MissingOperand(_) => "RPN: Missing operand"@,
            RpnError::MissingExponent => "RPN: Missing exponent for pow"@,
            RpnError::MissingBase => "RPN: Missing base for pow"@,
            RpnError::UnsupportedPower => "RPN: Only integer power 2 supported for pow token."@,
            RpnError::UnknownToken => "RPN: Unknown token"@,
            RpnError::EmptyStack => "RPN: Stack length is not 1 at end of evaluation"@,
        }
    }

    /// The text of the error.
    pub fn message(&self) -> (s: &'static str)
        ensures
            s@ == self.spec_message(),
    {
        match self {
            RpnError::InsufficientInputs => "Insufficient inputs",
            RpnError::MissingOperand(RpnToken::Sin) => "RPN: Missing operand for sin",
            RpnError::MissingOperand(RpnToken::Exp) => "RPN: Missing operand for exp",
            RpnError::MissingOperand(RpnToken::Sqrt) => "RPN: Missing operand for sqrt",
            RpnError::MissingOperand(RpnToken::Add) => "RPN: Missing operand for +",
            RpnError::MissingOperand(RpnToken::Mul) => "RPN: Missing operand for *",
            RpnError::MissingOperand(_) => "RPN: Missing operand",
            RpnError::MissingExponent => "RPN: Missing exponent for pow",
            RpnError::MissingBase => "RPN: Missing base for pow",
            RpnError::UnsupportedPower => "RPN: Only integer power 2 supported for pow token.",
            RpnError::UnknownToken => "RPN: Unknown token",
            RpnError::EmptyStack => "RPN: Stack length is not 1 at end of evaluation",
        }
    }
}

} // verus!
