//! Expressions as text for a symbolic evaluator.

use super::print_backend::{names_env, shown, InfixPrinter, InfixString};
use super::eval;
use crate::ast_expr::Expr;
use std::collections::HashMap;
use vstd::prelude::*;

verus! {

/// An expression to be handed to a symbolic evaluator, which reads it in infix
/// form.
#[derive(Debug)]
pub struct EvalexprEvaluator<Tag> {
    pub expr: Expr<Tag>,
    pub num_inputs: usize,
}

impl<Tag> EvalexprEvaluator<Tag> {
    /// The evaluator of `expr`, in which the first `num_inputs` input variables
    /// may occur.
    pub fn new(expr: Expr<Tag>, num_inputs: usize) -> (e: Self)
        ensures
            e.expr == expr,
            e.num_inputs == num_inputs,
    {
        EvalexprEvaluator { expr, num_inputs }
    }

    /// The infix text of the expression, with the literals written as
    /// `spelling` says.
    pub fn expr_string(&self, spelling: &HashMap<u64, String>) -> (s: String)
        ensures
            s@ == shown(
                eval::<InfixString>(self.expr@, names_env(self.num_inputs as nat)),
                spelling@,
            ),
    {
        InfixPrinter::print(&self.expr, self.num_inputs, spelling)
    }

    /// The name of the variable with respect to which derivative `var_index`
    /// is taken.
    pub fn derivative_variable(&self, var_index: usize) -> (name: String)
        ensures
            name@ == crate::text::var_name(var_index as nat),
    {
        crate::text::variable_name(var_index)
    }
}

} // verus!
