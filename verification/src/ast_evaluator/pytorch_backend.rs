//! Expressions as functions of tensors.

use super::ad_backend::{applied, apply, models};
use super::{agrees, EvalError, EvalFault, MainBackend};
use crate::ast_expr::Expr;
use vstd::prelude::*;

verus! {

/// An expression to be evaluated with the tensors of an autograd library, one
/// scalar tensor for each input.
#[derive(Debug)]
pub struct PyTorchEvaluator<Tag> {
    pub expr: Expr<Tag>,
    pub num_inputs: usize,
    pub num_outputs: usize,
}

impl<Tag: Clone> Clone for PyTorchEvaluator<Tag> {
    fn clone(&self) -> (r: Self)
        ensures
            r.expr@ == self.expr@,
            r.num_inputs == self.num_inputs,
            r.num_outputs == self.num_outputs,
    {
        PyTorchEvaluator {
            expr: self.expr.clone(),
            num_inputs: self.num_inputs,
            num_outputs: self.num_outputs,
        }
    }
}

impl<Tag> PyTorchEvaluator<Tag> {
    /// The outputs of the expression at the point `inputs`: its one value.
    pub fn compute<T: MainBackend>(&self, inputs: &[T]) -> (r: Result<Vec<T>, EvalError>)
        ensures
            match applied::<T>(self.expr@, self.num_inputs, models(inputs@)) {
                Ok(m) => r is Ok && r->Ok_0@.len() == 1 && r->Ok_0@[0].model() == m,
                Err(f) => r is Err && r->Err_0@ == f,
            },
    {
        match apply::<T, Tag>(&self.expr, self.num_inputs, inputs) {
            Ok(result) => {
                let mut outputs: Vec<T> = Vec::new();
                outputs.push(result);
                Ok(outputs)
            },
            Err(e) => Err(e),
        }
    }

    /// The number of inputs of the expression.
    pub fn num_inputs(&self) -> (n: usize)
        ensures
            n == self.num_inputs,
    {
        self.num_inputs
    }

    /// The number of outputs: one.
    pub fn num_outputs(&self) -> (n: usize)
        ensures
            n == self.num_outputs,
    {
        self.num_outputs
    }
}

} // verus!
