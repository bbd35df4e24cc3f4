//! Random test cases in reverse Polish notation.
//!
//! The generator keeps count of the values that the tokens written so far
//! leave on the stack, and writes a function or an operation only where the
//! stack holds its operands. Whatever the random decisions are, the tokens
//! leave exactly one value.

use crate::chance::{choose_one, gen_range, gen_ratio};
use crate::rpn_evaluator::{rpn_run, rpn_value, token_kind, RpnError, RpnEvalType, RpnToken};
use crate::test_definition::TestDefinition;
use crate::text::{join_lines, joined, lines, push_line};
use rand::rngs::ThreadRng;
use vstd::prelude::*;

verus! {

/// The largest number of tokens that are chosen freely after the first.
pub const MAX_TOKENS: usize = 7;

/// What a token does to the stack.
#[derive(Debug, Clone, Copy, PartialEq, Eq, Structural)]
pub enum TokenClass {
    /// Puts one value on the stack.
    Operand,
    /// Replaces the value at the top.
    Unary,
    /// Replaces the two values at the top by one.
    Binary,
}

/// The number of values on the stack after a token, on a stack of `depth`
/// values; none where the token lacks an operand or is unknown.
pub open spec fn depth_step(depth: nat, kind: RpnToken) -> Option<nat> {
    match kind {
        RpnToken::X | RpnToken::Y | RpnToken::Two => Some(depth + 1),
        RpnToken::Sin | RpnToken::Exp | RpnToken::Sqrt => if depth >= 1 {
            Some(depth)
        } else {
            None
        },
        RpnToken::Add | RpnToken::Mul | RpnToken::Pow => if depth >= 2 {
            Some((depth - 1) as nat)
        } else {
            None
        },
        RpnToken::Unknown => None,
    }
}

/// The number of values on the stack after the first `n` tokens.
pub open spec fn depth_after(tokens: Seq<Seq<char>>, n: nat) -> Option<nat>
    decreases n,
{
    if n == 0 || n > tokens.len() {
        Some(0)
    } else {
        match depth_after(tokens, (n - 1) as nat) {
            None => None,
            Some(depth) => depth_step(depth, token_kind(tokens[n - 1])),
        }
    }
}

/// Whether the token puts a value on the stack.
pub open spec fn is_operand(kind: RpnToken) -> bool {
    kind == RpnToken::X || kind == RpnToken::Y || kind == RpnToken::Two
}

/// Whether every token finds its operands and exactly one value is left.
pub open spec fn balanced(tokens: Seq<Seq<char>>) -> bool {
    depth_after(tokens, tokens.len()) == Some(1nat)
}

/// The class of the next token where it is not an operand by choice: an
/// operation where the stack holds two values and the draw says so, else a
/// function where it holds one, else an operand.
pub fn token_class(stack_depth: usize, binary: bool) -> (class: TokenClass)
    ensures
        class == if stack_depth >= 2 && binary {
            TokenClass::Binary
        } else if stack_depth >= 1 {
            TokenClass::Unary
        } else {
            TokenClass::Operand
        },
{
    if stack_depth >= 2 && binary {
        TokenClass::Binary
    } else if stack_depth >= 1 {
        TokenClass::Unary
    } else {
        TokenClass::Operand
    }
}

/// `depth_after` looks only at the first `n` tokens.
pub proof fn depth_prefix(xs: Seq<Seq<char>>, ys: Seq<Seq<char>>, n: nat)
    requires
        n <= xs.len(),
        n <= ys.len(),
        forall|i: int| 0 <= i < n ==> xs[i] == ys[i],
    ensures
        depth_after(xs, n) == depth_after(ys, n),
    decreases n,
{
    if n > 0 {
        depth_prefix(xs, ys, (n - 1) as nat);
    }
}

/// Writes one random token of the given class.
fn push_token(rng: &mut ThreadRng, tokens: &mut Vec<String>, class: TokenClass)
    ensures
        final(tokens)@.len() == old(tokens)@.len() + 1,
        lines(final(tokens)@).drop_last() == lines(old(tokens)@),
        ({
            let kind = token_kind(lines(final(tokens)@).last());
            match class {
                TokenClass::Operand => kind == RpnToken::X || kind == RpnToken::Y || kind
                    == RpnToken::Two,
                TokenClass::Unary => kind == RpnToken::Sin || kind == RpnToken::Exp || kind
                    == RpnToken::Sqrt,
                TokenClass::Binary => kind == RpnToken::Add || kind == RpnToken::Mul || kind
                    == RpnToken::Pow,
            }
        }),
{
    proof {
        reveal_strlit("x");
        reveal_strlit("y");
        reveal_strlit("2");
        reveal_strlit("sin");
        reveal_strlit("exp");
        reveal_strlit("sqrt");
        reveal_strlit("+");
        reveal_strlit("*");
        reveal_strlit("pow");
    }
    let choices: Vec<&'static str> = match class {
        TokenClass::Operand => vec!["x", "y", "2"],
        TokenClass::Unary => vec!["sin", "exp", "sqrt"],
        TokenClass::Binary => vec!["+", "*", "pow"],
    };
    let token = choose_one(rng, choices.as_slice()).unwrap();
    assert(token == choices@[0] || token == choices@[1] || token == choices@[2]);
    push_line(tokens, String::from_str(token));
    assert(lines(tokens@).drop_last() =~= lines(old(tokens)@));
    assert(lines(tokens@).last() == token@);
    proof {
        match class {
            TokenClass::Operand => {
                assert(token@ == "x"@ || token@ == "y"@ || token@ == "2"@);
                assert("y"@[0] != "x"@[0]);
                assert("2"@[0] != "x"@[0]);
                assert("2"@[0] != "y"@[0]);
            },
            TokenClass::Unary => {
                assert(token@ == "sin"@ || token@ == "exp"@ || token@ == "sqrt"@);
                assert("sin"@.len() == 3 && "exp"@.len() == 3 && "sqrt"@.len() == 4);
                assert("exp"@[0] != "sin"@[0]);
            },
            TokenClass::Binary => {
                assert(token@ == "+"@ || token@ == "*"@ || token@ == "pow"@);
                assert("+"@.len() == 1 && "*"@.len() == 1 && "pow"@.len() == 3);
                assert("+"@[0] != "x"@[0] && "+"@[0] != "y"@[0] && "+"@[0] != "2"@[0]);
                assert("*"@[0] != "x"@[0] && "*"@[0] != "y"@[0] && "*"@[0] != "2"@[0]);
                assert("*"@[0] != "+"@[0]);
                assert("pow"@[0] != "sin"@[0] && "pow"@[0] != "exp"@[0]);
            },
        }
    }
}

/// Generates a random test case.
///
/// The tokens are balanced: evaluation finds an operand wherever it needs one
/// and leaves exactly one value. The name is `AutoTest_` and the tokens with
/// underscores between them.
pub fn generate_random_test(rng: &mut ThreadRng) -> (def: TestDefinition)
    ensures
        balanced(lines(def.expression_rpn@)),
        3 <= def.expression_rpn@.len() <= 2 * MAX_TOKENS + 1,
        is_operand(token_kind(lines(def.expression_rpn@)[0])),
        def.name@ == "AutoTest_"@ + joined(
            lines(def.expression_rpn@),
            "_"@,
            def.expression_rpn@.len(),
        ),
        def.description@ == "Randomly generated RPN expression."@,
        def.num_inputs == 2,
        def.num_outputs == 1,
{
    let mut tokens: Vec<String> = Vec::new();
    let mut stack_depth: usize = 0;
    push_token(rng, &mut tokens, TokenClass::Operand);
    stack_depth = stack_depth + 1;
    assert(depth_after(lines(tokens@), 0) == Some(0nat));
    let ghost first = lines(tokens@)[0];
    let num_tokens = gen_range(rng, 2, MAX_TOKENS);
    let mut i: usize = 0;
    while i < num_tokens
        invariant
            2 <= num_tokens,
            i <= num_tokens <= MAX_TOKENS,
            tokens@.len() == i + 1,
            lines(tokens@)[0] == first,
            1 <= stack_depth <= tokens@.len(),
            depth_after(lines(tokens@), tokens@.len()) == Some(stack_depth as nat),
        decreases num_tokens - i,
    {
        let push_operand = stack_depth < 2 || gen_ratio(rng, 2, 5);
        let class = if push_operand {
            TokenClass::Operand
        } else {
            token_class(stack_depth, gen_ratio(rng, 7, 10))
        };
        let ghost before = lines(tokens@);
        push_token(rng, &mut tokens, class);
        proof {
            depth_prefix(before, lines(tokens@), before.len());
        }
        match class {
            TokenClass::Operand => {
                stack_depth = stack_depth + 1;
            },
            TokenClass::Unary => {},
            TokenClass::Binary => {
                stack_depth = stack_depth - 1;
            },
        }
        i = i + 1;
    }
    while stack_depth > 1
        invariant
            3 <= tokens@.len(),
            tokens@.len() + stack_depth <= 2 * MAX_TOKENS + 2,
            lines(tokens@)[0] == first,
            1 <= stack_depth <= tokens@.len(),
            depth_after(lines(tokens@), tokens@.len()) == Some(stack_depth as nat),
        decreases stack_depth,
    {
        let ghost before = lines(tokens@);
        push_token(rng, &mut tokens, TokenClass::Binary);
        proof {
            depth_prefix(before, lines(tokens@), before.len());
        }
        stack_depth = stack_depth - 1;
    }
    let mut name = String::from_str("AutoTest_");
    name.append(join_lines(&tokens, "_").as_str());
    TestDefinition {
        name,
        description: String::from_str("Randomly generated RPN expression."),
        expression_rpn: tokens,
        num_inputs: 2,
        num_outputs: 1,
    }
}

/// Where every token among the first `n` finds its operands, evaluation does
/// too: the stack holds as many values as were counted, unless a `pow` met an
/// exponent other than two.
pub proof fn counted_tokens_evaluate<T: RpnEvalType>(
    tokens: Seq<Seq<char>>,
    x: T::Model,
    y: T::Model,
    n: nat,
)
    requires
        n <= tokens.len(),
        depth_after(tokens, n) is Some,
    ensures
        match rpn_run::<T>(tokens, x, y, n) {
            Ok(stack) => stack.len() == depth_after(tokens, n)->Some_0,
            Err(e) => e == RpnError::UnsupportedPower,
        },
    decreases n,
{
    if n > 0 {
        counted_tokens_evaluate::<T>(tokens, x, y, (n - 1) as nat);
    }
}

/// Balanced tokens have a value at every pair of inputs, unless a `pow` meets
/// an exponent other than two.
pub proof fn balanced_tokens_evaluate<T: RpnEvalType>(tokens: Seq<Seq<char>>, inputs: Seq<T::Model>)
    requires
        balanced(tokens),
        inputs.len() >= 2,
    ensures
        rpn_value::<T>(tokens, inputs) is Ok || rpn_value::<T>(tokens, inputs) == Err::<
            T::Model,
            RpnError,
        >(RpnError::UnsupportedPower),
{
    counted_tokens_evaluate::<T>(tokens, inputs[0], inputs[1], tokens.len());
}

} // verus!
