//! One expression for several backends.

use super::ad_backend::AdEvaluator;
use super::evalexpr_backend::EvalexprEvaluator;
use super::print_backend::{names_env, shown, InfixPrinter, InfixString};
use super::pytorch_backend::PyTorchEvaluator;
use super::ad_backend::{applied, models};
use super::{agrees, eval, EvalError, MainBackend};
use crate::ast_expr::Expr;
use crate::fuzz_harness::Calculator;
use std::collections::HashMap;
use vstd::prelude::*;

verus! {

/// One expression for the differentiation engine and for the autograd library.
#[derive(Debug)]
pub struct AdPyUnified<Tag> {
    ad_eval: AdEvaluator<Tag>,
    pytorch_eval: PyTorchEvaluator<Tag>,
    num_inputs: usize,
    expr: Expr<Tag>,
}

impl<Tag: Clone> AdPyUnified<Tag> {
    /// The evaluators of `expr` for both libraries.
    pub fn new(expr: Expr<Tag>, num_inputs: usize, num_outputs: usize) -> (u: Self)
        ensures
            u.spec_expr()@ == expr@,
            u.arity() == num_inputs,
            u.outputs() == num_outputs,
    {
        AdPyUnified {
            ad_eval: AdEvaluator { expr: expr.clone(), num_inputs, num_outputs },
            pytorch_eval: PyTorchEvaluator { expr: expr.clone(), num_inputs, num_outputs },
            num_inputs,
            expr,
        }
    }
}

impl<Tag> AdPyUnified<Tag> {
    /// Whether the two evaluators hold the expression and the arity of the
    /// whole. `new` makes it so.
    #[verifier::type_invariant]
    closed spec fn consistent(self) -> bool {
        &&& self.ad_eval.expr@ == self.expr@
        &&& self.pytorch_eval.expr@ == self.expr@
        &&& self.ad_eval.num_inputs == self.num_inputs
        &&& self.pytorch_eval.num_inputs == self.num_inputs
        &&& self.pytorch_eval.num_outputs == self.ad_eval.num_outputs
    }

    /// The expression.
    pub closed spec fn spec_expr(&self) -> Expr<Tag> {
        self.expr
    }

    /// The number of outputs.
    pub closed spec fn outputs(&self) -> usize {
        self.ad_eval.num_outputs
    }

    /// The number of inputs.
    pub closed spec fn arity(&self) -> usize {
        self.num_inputs
    }

    /// The expression.
    pub fn get_expr(&self) -> (e: &Expr<Tag>)
        ensures
            *e == self.spec_expr(),
    {
        &self.expr
    }

    /// The number of inputs.
    pub fn num_inputs(&self) -> (n: usize)
        ensures
            n == self.arity(),
    {
        proof {
            use_type_invariant(self);
        }
        self.ad_eval.num_inputs
    }

    /// The evaluator for the autograd library.
    pub fn pytorch(&self) -> (p: &PyTorchEvaluator<Tag>)
        ensures
            p.expr@ == self.spec_expr()@,
            p.num_inputs == self.arity(),
            p.num_outputs == self.outputs(),
    {
        proof {
            use_type_invariant(self);
        }
        &self.pytorch_eval
    }
}

impl<Tag> Calculator for AdPyUnified<Tag> {
    fn eval_expr<T: MainBackend>(&self, inputs: &[T]) -> (r: Result<T, EvalError>)
        ensures
            agrees::<T>(r, applied::<T>(self.spec_expr()@, self.arity(), models(inputs@))),
    {
        proof {
            use_type_invariant(self);
        }
        self.ad_eval.eval_expr(inputs)
    }

    fn num_inputs(&self) -> (n: usize)
        ensures
            n == self.arity(),
    {
        self.num_inputs
    }

    fn num_outputs(&self) -> (n: usize)
        ensures
            n == self.outputs(),
    {
        self.ad_eval.num_outputs
    }
}

/// One expression for the symbolic evaluator and for the autograd library.
#[derive(Debug)]
pub struct EvalexprPyUnified<Tag> {
    evalexpr_eval: EvalexprEvaluator<Tag>,
    pytorch_eval: PyTorchEvaluator<Tag>,
    num_inputs: usize,
    expr: Expr<Tag>,
}

impl<Tag: Clone> EvalexprPyUnified<Tag> {
    /// The evaluators of `expr` for the symbolic evaluator and the autograd
    /// library.
    pub fn new(expr: Expr<Tag>, num_inputs: usize) -> (u: Self)
        ensures
            u.spec_expr()@ == expr@,
            u.arity() == num_inputs,
    {
        EvalexprPyUnified {
            evalexpr_eval: EvalexprEvaluator::new(expr.clone(), num_inputs),
            pytorch_eval: PyTorchEvaluator { expr: expr.clone(), num_inputs, num_outputs: 1 },
            num_inputs,
            expr,
        }
    }
}

impl<Tag> EvalexprPyUnified<Tag> {
    #[verifier::type_invariant]
    closed spec fn consistent(self) -> bool {
        &&& self.evalexpr_eval.expr@ == self.expr@
        &&& self.pytorch_eval.expr@ == self.expr@
        &&& self.evalexpr_eval.num_inputs == self.num_inputs
        &&& self.pytorch_eval.num_inputs == self.num_inputs
        &&& self.pytorch_eval.num_outputs == 1
    }

    /// The expression.
    pub closed spec fn spec_expr(&self) -> Expr<Tag> {
        self.expr
    }

    /// The number of inputs.
    pub closed spec fn arity(&self) -> usize {
        self.num_inputs
    }

    /// The evaluator for the symbolic evaluator.
    pub fn evalexpr(&self) -> (e: &EvalexprEvaluator<Tag>)
        ensures
            e.expr@ == self.spec_expr()@,
            e.num_inputs == self.arity(),
    {
        proof {
            use_type_invariant(self);
        }
        &self.evalexpr_eval
    }

    /// The evaluator for the autograd library.
    pub fn pytorch(&self) -> (p: &PyTorchEvaluator<Tag>)
        ensures
            p.expr@ == self.spec_expr()@,
            p.num_inputs == self.arity(),
            p.num_outputs == 1,
    {
        proof {
            use_type_invariant(self);
        }
        &self.pytorch_eval
    }

    /// The expression.
    pub fn get_expr(&self) -> (e: &Expr<Tag>)
        ensures
            *e == self.spec_expr(),
    {
        &self.expr
    }

    /// The number of inputs.
    pub fn num_inputs(&self) -> (n: usize)
        ensures
            n == self.arity(),
    {
        self.num_inputs
    }

    /// The number of outputs: one.
    pub fn num_outputs(&self) -> (n: usize)
        ensures
            n == 1,
    {
        1
    }

    /// The infix text of the expression, with the literals written as
    /// `spelling` says.
    pub fn expr_string(&self, spelling: &HashMap<u64, String>) -> (s: String)
        ensures
            s@ == shown(
                eval::<InfixString>(self.spec_expr()@, names_env(self.arity() as nat)),
                spelling@,
            ),
    {
        InfixPrinter::print(&self.expr, self.num_inputs, spelling)
    }
}

} // verus!
