//! Expressions as functions of a point.
//!
//! An adapter holds an expression and its arity. Applied to a point it binds
//! `x_0, x_1, ...` to the coordinates and evaluates; a point of another length
//! is refused.

use super::{
    agrees, closed, closed_evaluates, eval, evaluate, Env, EvalError, EvalFault, MainBackend,
};
use crate::ast_expr::{Expr, Tree};
use crate::fuzz_harness::Calculator;
use crate::text::{var_name, var_name_injective, variable_name};
use vstd::prelude::*;

verus! {

/// The models of the values.
pub open spec fn models<T: MainBackend>(values: Seq<T>) -> Seq<T::Model> {
    Seq::new(values.len(), |i: int| values[i].model())
}

/// The environment that binds `x_i` to `values[i]` for the first `n` values.
pub open spec fn inputs_env<T: MainBackend>(values: Seq<T::Model>, n: nat) -> Map<
    Seq<char>,
    T::Model,
>
    decreases n,
{
    if n == 0 || n > values.len() {
        Map::empty()
    } else {
        inputs_env::<T>(values, (n - 1) as nat).insert(var_name((n - 1) as nat), values[n - 1])
    }
}

/// The value of a tree of the given arity at a point.
pub open spec fn applied<T: MainBackend>(tree: Tree, arity: usize, point: Seq<T::Model>) -> Result<
    T::Model,
    EvalFault,
> {
    if point.len() != arity {
        Err(EvalFault::ArityMismatch)
    } else {
        eval::<T>(tree, inputs_env::<T>(point, point.len()))
    }
}

/// The environment of a point binds `x_j` to coordinate `j`, and binds no
/// other name.
pub proof fn inputs_env_binds<T: MainBackend>(values: Seq<T::Model>, n: nat)
    requires
        n <= values.len(),
    ensures
        forall|j: nat|
            j < n ==> inputs_env::<T>(values, n).contains_key(#[trigger] var_name(j))
                && inputs_env::<T>(values, n)[var_name(j)] == values[j as int],
        forall|name: Seq<char>| #[trigger]
            inputs_env::<T>(values, n).contains_key(name) ==> exists|j: nat|
                j < n && name == var_name(j),
    decreases n,
{
    if n > 0 {
        let m = (n - 1) as nat;
        inputs_env_binds::<T>(values, m);
        assert forall|j: nat| j < n implies inputs_env::<T>(values, n).contains_key(
            #[trigger] var_name(j),
        ) && inputs_env::<T>(values, n)[var_name(j)] == values[j as int] by {
            if j < m {
                if var_name(j) == var_name(m) {
                    var_name_injective(j, m);
                }
            }
        }
        assert forall|name: Seq<char>| #[trigger]
            inputs_env::<T>(values, n).contains_key(name) implies exists|j: nat|
            j < n && name == var_name(j) by {
            if name == var_name(m) {
                assert(m < n && name == var_name(m));
            } else {
                assert(inputs_env::<T>(values, m).contains_key(name));
                let j = choose|j: nat| j < m && name == var_name(j);
                assert(j < n && name == var_name(j));
            }
        }
    }
}

/// A tree of literals, operators and the first `n` input variables has a value
/// at every point of `n` coordinates, whatever the backend: no name in it is
/// unbound, and no node of it is without a numeric meaning.
pub proof fn closed_trees_evaluate<T: MainBackend>(tree: Tree, n: usize, point: Seq<T::Model>)
    requires
        closed(tree, n as nat),
        point.len() == n,
    ensures
        applied::<T>(tree, n, point) is Ok,
{
    inputs_env_binds::<T>(point, point.len());
    closed_evaluates::<T>(tree, n as nat, inputs_env::<T>(point, point.len()));
}

/// Binds `x_0, x_1, ...` to the values.
pub fn bind_inputs<T: MainBackend>(inputs: &[T]) -> (env: Env<T>)
    ensures
        env@ == inputs_env::<T>(models(inputs@), inputs@.len()),
{
    let mut env: Env<T> = Env::new();
    let mut i: usize = 0;
    while i < inputs.len()
        invariant
            i <= inputs@.len(),
            env@ == inputs_env::<T>(models(inputs@), i as nat),
        decreases inputs@.len() - i,
    {
        env.insert(variable_name(i), inputs[i].duplicate());
        i = i + 1;
    }
    env
}

/// Evaluates `expr` at the point `inputs`, which must have `arity` coordinates.
pub fn apply<T: MainBackend, Tag>(expr: &Expr<Tag>, arity: usize, inputs: &[T]) -> (r: Result<
    T,
    EvalError,
>)
    ensures
        agrees::<T>(r, applied::<T>(expr@, arity, models(inputs@))),
{
    if inputs.len() != arity {
        return Err(EvalError::ArityMismatch);
    }
    let env = bind_inputs(inputs);
    evaluate::<T, Tag>(expr, &env)
}

/// An expression to be evaluated with the numeric types of a differentiation
/// engine.
#[derive(Debug)]
pub struct AdEvaluator<Tag> {
    pub expr: Expr<Tag>,
    pub num_inputs: usize,
    pub num_outputs: usize,
}

impl<Tag: Clone> Clone for AdEvaluator<Tag> {
    fn clone(&self) -> (r: Self)
        ensures
            r.expr@ == self.expr@,
            r.num_inputs == self.num_inputs,
            r.num_outputs == self.num_outputs,
    {
        AdEvaluator {
            expr: self.expr.clone(),
            num_inputs: self.num_inputs,
            num_outputs: self.num_outputs,
        }
    }
}

impl<Tag> Calculator for AdEvaluator<Tag> {
    fn eval_expr<T: MainBackend>(&self, inputs: &[T]) -> (r: Result<T, EvalError>)
        ensures
            agrees::<T>(r, applied::<T>(self.expr@, self.num_inputs, models(inputs@))),
    {
        apply::<T, Tag>(&self.expr, self.num_inputs, inputs)
    }

    fn num_inputs(&self) -> (n: usize)
        ensures
            n == self.num_inputs,
    {
        self.num_inputs
    }

    fn num_outputs(&self) -> (n: usize)
        ensures
            n == self.num_outputs,
    {
        self.num_outputs
    }
}

} // verus!
