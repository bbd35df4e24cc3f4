//! One evaluator for every numeric backend.
//!
//! A backend is a type that supplies literals, the two identities, eight unary
//! and five binary operations. `evaluate` walks an expression and calls them;
//! it is the only tree walk, whatever the backend computes.

use crate::ast_expr::{Expr, Op1, Op2, Tree};
use vstd::prelude::*;

pub mod ad_backend;
pub mod env;
pub mod evalexpr_backend;
pub mod print_backend;
pub mod pytorch_backend;
pub mod reading;
pub mod unified;

pub use ad_backend::AdEvaluator;
pub use env::Env;
pub use evalexpr_backend::EvalexprEvaluator;
pub use pytorch_backend::PyTorchEvaluator;
pub use print_backend::{InfixPrinter, InfixString, SExprPrinter, SExprString, SSAPrinter};

verus! {

/// The operations that a numeric type supplies to the evaluator.
///
/// Each value has a mathematical model, and each operation is a function on
/// models: an implementation promises that its operations compute the model
/// that the specification functions name, and nothing else about them.
pub trait MainBackend: Sized {
    /// What a value stands for in specifications.
    type Model;

    spec fn model(&self) -> Self::Model;

    /// The model of the literal with the given bits.
    spec fn literal(bits: u64) -> Self::Model;

    /// The model of the additive identity.
    spec fn zero_model() -> Self::Model;

    /// The model of the multiplicative identity.
    spec fn one_model() -> Self::Model;

    /// The model of `op` applied to a value with model `x`.
    spec fn unary(op: Op1, x: Self::Model) -> Self::Model;

    /// The model of `op` applied to values with models `x` and `y`.
    spec fn binary(op: Op2, x: Self::Model, y: Self::Model) -> Self::Model;

    /// The value of a literal, given as the bit pattern of a double.
    fn from_f64(bits: u64) -> (r: Self)
        ensures
            r.model() == Self::literal(bits),
    ;

    fn zero() -> (r: Self)
        ensures
            r.model() == Self::zero_model(),
    ;

    fn one() -> (r: Self)
        ensures
            r.model() == Self::one_model(),
    ;

    fn neg(self) -> (r: Self)
        ensures
            r.model() == Self::unary(Op1::Neg, self.model()),
    ;

    fn sin(self) -> (r: Self)
        ensures
            r.model() == Self::unary(Op1::Sin, self.model()),
    ;

    fn cos(self) -> (r: Self)
        ensures
            r.model() == Self::unary(Op1::Cos, self.model()),
    ;

    fn tan(self) -> (r: Self)
        ensures
            r.model() == Self::unary(Op1::Tan, self.model()),
    ;

    fn exp(self) -> (r: Self)
        ensures
            r.model() == Self::unary(Op1::Exp, self.model()),
    ;

    fn log(self) -> (r: Self)
        ensures
            r.model() == Self::unary(Op1::Log, self.model()),
    ;

    fn sqrt(self) -> (r: Self)
        ensures
            r.model() == Self::unary(Op1::Sqrt, self.model()),
    ;

    fn abs(self) -> (r: Self)
        ensures
            r.model() == Self::unary(Op1::Abs, self.model()),
    ;

    fn add(self, other: Self) -> (r: Self)
        ensures
            r.model() == Self::binary(Op2::Add, self.model(), other.model()),
    ;

    fn sub(self, other: Self) -> (r: Self)
        ensures
            r.model() == Self::binary(Op2::Sub, self.model(), other.model()),
    ;

    fn mul(self, other: Self) -> (r: Self)
        ensures
            r.model() == Self::binary(Op2::Mul, self.model(), other.model()),
    ;

    fn div(self, other: Self) -> (r: Self)
        ensures
            r.model() == Self::binary(Op2::Div, self.model(), other.model()),
    ;

    fn pow(self, other: Self) -> (r: Self)
        ensures
            r.model() == Self::binary(Op2::Pow, self.model(), other.model()),
    ;

    /// A second value with the same model.
    fn duplicate(&self) -> (r: Self)
        ensures
            r.model() == self.model(),
    ;
}

/// Why an expression has no value.
#[derive(Debug)]
pub enum EvalError {
    /// The expression refers to a name that the environment does not bind.
    UnboundVariable(String),
    /// A boolean literal stands where a number is needed.
    BooleanInNumericContext,
    /// A conditional, loop, break, assignment or cast: nodes without a numeric
    /// meaning.
    UnsupportedNode,
    /// The number of inputs is not the number of variables of the expression.
    ArityMismatch,
}

/// The model of an `EvalError`.
pub enum EvalFault {
    UnboundVariable(Seq<char>),
    BooleanInNumericContext,
    UnsupportedNode,
    ArityMismatch,
}

impl View for EvalError {
    type V = EvalFault;

    open spec fn view(&self) -> EvalFault {
        match self {
            EvalError::UnboundVariable(name) => EvalFault::UnboundVariable(name@),
            EvalError::BooleanInNumericContext => EvalFault::BooleanInNumericContext,
            EvalError::UnsupportedNode => EvalFault::UnsupportedNode,
            EvalError::ArityMismatch => EvalFault::ArityMismatch,
        }
    }
}

impl EvalFault {
    /// The text of the error.
    pub open spec fn message(self) -> Seq<char> {
        match self {
            EvalFault::UnboundVariable(name) => "Variable '"@ + name + "' not found"@,
            EvalFault::BooleanInNumericContext => "Boolean not supported in numeric expressions"@,
            EvalFault::UnsupportedNode => "Unsupported expression type"@,
            EvalFault::ArityMismatch => "Input arity mismatch"@,
        }
    }
}

impl EvalError {
    /// The text of the error.
    pub fn message(&self) -> (s: String)
        ensures
            s@ == self@.message(),
    {
        match self {
            EvalError::UnboundVariable(name) => {
                let mut s = String::from_str("Variable '");
                s.append(name.as_str());
                s.append("' not found");
                s
            },
            EvalError::BooleanInNumericContext => String::from_str(
                "Boolean not supported in numeric expressions",
            ),
            EvalError::UnsupportedNode => String::from_str("Unsupported expression type"),
            EvalError::ArityMismatch => String::from_str("Input arity mismatch"),
        }
    }
}

/// The value of a tree in an environment, over the models of a backend.
///
/// Literals and operators go to the backend. A name is looked up. The bindings
/// of a `let` are all evaluated in the outer environment, in order, and the body
/// in the environment they extend. A block has the value of its last
/// expression, and the additive identity where it is empty. The first error
/// met in this order is the result.
pub open spec fn eval<T: MainBackend>(tree: Tree, env: Map<Seq<char>, T::Model>) -> Result<
    T::Model,
    EvalFault,
>
    decreases tree,
{
    match tree {
        Tree::Number(bits) => Ok(T::literal(bits)),
        Tree::Boolean(_) => Err(EvalFault::BooleanInNumericContext),
        Tree::Id(name) => if env.contains_key(name) {
            Ok(env[name])
        } else {
            Err(EvalFault::UnboundVariable(name))
        },
        Tree::UnOp(op, e) => match eval::<T>(*e, env) {
            Err(f) => Err(f),
            Ok(x) => Ok(T::unary(op, x)),
        },
        Tree::BinOp(op, l, r) => match eval::<T>(*l, env) {
            Err(f) => Err(f),
            Ok(x) => match eval::<T>(*r, env) {
                Err(f) => Err(f),
                Ok(y) => Ok(T::binary(op, x, y)),
            },
        },
        Tree::Let(bindings, body) => match eval_bindings::<T>(bindings, env, bindings.len()) {
            Err(f) => Err(f),
            Ok(inner) => eval::<T>(*body, inner),
        },
        Tree::Block(items) => eval_block::<T>(items, env, items.len()),
        _ => Err(EvalFault::UnsupportedNode),
    }
}

/// The environment `env` extended by the first `n` bindings, each evaluated in
/// `env` itself.
pub open spec fn eval_bindings<T: MainBackend>(
    bindings: Seq<(Seq<char>, Tree)>,
    env: Map<Seq<char>, T::Model>,
    n: nat,
) -> Result<Map<Seq<char>, T::Model>, EvalFault>
    decreases bindings, n,
{
    if n == 0 || n > bindings.len() {
        Ok(env)
    } else {
        match eval_bindings::<T>(bindings, env, (n - 1) as nat) {
            Err(f) => Err(f),
            Ok(inner) => match eval::<T>(bindings[n - 1].1, env) {
                Err(f) => Err(f),
                Ok(x) => Ok(inner.insert(bindings[n - 1].0, x)),
            },
        }
    }
}

/// The value of the block made of the first `n` items.
pub open spec fn eval_block<T: MainBackend>(
    items: Seq<Tree>,
    env: Map<Seq<char>, T::Model>,
    n: nat,
) -> Result<T::Model, EvalFault>
    decreases items, n,
{
    if n == 0 || n > items.len() {
        Ok(T::zero_model())
    } else {
        match eval_block::<T>(items, env, (n - 1) as nat) {
            Err(f) => Err(f),
            Ok(_) => eval::<T>(items[n - 1], env),
        }
    }
}

/// How an exec result relates to a result over models.
pub open spec fn agrees<T: MainBackend>(
    r: Result<T, EvalError>,
    m: Result<T::Model, EvalFault>,
) -> bool {
    match m {
        Ok(x) => r is Ok && r->Ok_0.model() == x,
        Err(f) => r is Err && r->Err_0@ == f,
    }
}

/// Evaluates `expr` in `env` with the backend `T`.
#[verifier::loop_isolation(false)]
pub fn evaluate<T: MainBackend, Tag>(expr: &Expr<Tag>, env: &Env<T>) -> (r: Result<T, EvalError>)
    ensures
        agrees::<T>(r, eval::<T>(expr@, env@)),
    decreases expr,
{
    match expr {
        Expr::Number(_, val) => Ok(T::from_f64(*val)),
        Expr::Boolean(_, _) => Err(EvalError::BooleanInNumericContext),
        Expr::Id(_, name) => match env.get(name) {
            Some(value) => Ok(value.duplicate()),
            None => Err(EvalError::UnboundVariable(name.clone())),
        },
        Expr::UnOp(_, op, sub_expr) => {
            let val = match evaluate::<T, Tag>(&**sub_expr, env) {
                Err(e) => {
                    return Err(e);
                },
                Ok(v) => v,
            };
            Ok(
                match op {
                    Op1::Neg => val.neg(),
                    Op1::Sin => val.sin(),
                    Op1::Cos => val.cos(),
                    Op1::Tan => val.tan(),
                    Op1::Exp => val.exp(),
                    Op1::Log => val.log(),
                    Op1::Sqrt => val.sqrt(),
                    Op1::Abs => val.abs(),
                },
            )
        },
        Expr::BinOp(_, op, left, right) => {
            let left_val = match evaluate::<T, Tag>(&**left, env) {
                Err(e) => {
                    return Err(e);
                },
                Ok(v) => v,
            };
            let right_val = match evaluate::<T, Tag>(&**right, env) {
                Err(e) => {
                    return Err(e);
                },
                Ok(v) => v,
            };
            Ok(
                match op {
                    Op2::Add => left_val.add(right_val),
                    Op2::Sub => left_val.sub(right_val),
                    Op2::Mul => left_val.mul(right_val),
                    Op2::Div => left_val.div(right_val),
                    Op2::Pow => left_val.pow(right_val),
                },
            )
        },
        Expr::Let(_, bindings, body) => {
            let mut new_env = env.duplicate();
            let ghost trees = Expr::<Tag>::view_bindings(bindings@, bindings@.len());
            proof {
                Expr::<Tag>::view_bindings_index(bindings@, bindings@.len());
            }
            let mut i: usize = 0;
            while i < bindings.len()
                invariant
                    i <= bindings@.len(),
                    eval_bindings::<T>(trees, env@, i as nat) == Ok::<
                        Map<Seq<char>, T::Model>,
                        EvalFault,
                    >(new_env@),
                decreases bindings@.len() - i,
            {
                let val = match evaluate::<T, Tag>(&bindings[i].1, env) {
                    Err(e) => {
                        proof {
                            eval_bindings_fails::<T>(trees, env@, (i + 1) as nat, trees.len());
                        }
                        return Err(e);
                    },
                    Ok(v) => v,
                };
                new_env.insert(bindings[i].0.clone(), val);
                i = i + 1;
            }
            evaluate::<T, Tag>(&**body, &new_env)
        },
        Expr::Block(_, exprs) => {
            let ghost trees = Expr::<Tag>::view_items(exprs@, exprs@.len());
            proof {
                Expr::<Tag>::view_items_index(exprs@, exprs@.len());
            }
            let mut result = T::zero();
            let mut i: usize = 0;
            while i < exprs.len()
                invariant
                    i <= exprs@.len(),
                    eval_block::<T>(trees, env@, i as nat) == Ok::<T::Model, EvalFault>(
                        result.model(),
                    ),
                decreases exprs@.len() - i,
            {
                result = match evaluate::<T, Tag>(&exprs[i], env) {
                    Err(e) => {
                        proof {
                            eval_block_fails::<T>(trees, env@, (i + 1) as nat, trees.len());
                        }
                        return Err(e);
                    },
                    Ok(v) => v,
                };
                i = i + 1;
            }
            Ok(result)
        },
        _ => Err(EvalError::UnsupportedNode),
    }
}

/// Once a prefix of the bindings fails, every longer prefix fails in the same way.
pub proof fn eval_bindings_fails<T: MainBackend>(
    bindings: Seq<(Seq<char>, Tree)>,
    env: Map<Seq<char>, T::Model>,
    n: nat,
    m: nat,
)
    requires
        n <= m <= bindings.len(),
        eval_bindings::<T>(bindings, env, n) is Err,
    ensures
        eval_bindings::<T>(bindings, env, m) == eval_bindings::<T>(bindings, env, n),
    decreases m,
{
    if n < m {
        eval_bindings_fails::<T>(bindings, env, n, (m - 1) as nat);
    }
}

/// Once a prefix of a block fails, every longer prefix fails in the same way.
pub proof fn eval_block_fails<T: MainBackend>(
    items: Seq<Tree>,
    env: Map<Seq<char>, T::Model>,
    n: nat,
    m: nat,
)
    requires
        n <= m <= items.len(),
        eval_block::<T>(items, env, n) is Err,
    ensures
        eval_block::<T>(items, env, m) == eval_block::<T>(items, env, n),
    decreases m,
{
    if n < m {
        eval_block_fails::<T>(items, env, n, (m - 1) as nat);
    }
}

/// Evaluation is a function of the expression and the environment: two runs
/// on the same expression and the same environment end in the same value, or in
/// the same error.
pub proof fn evaluation_repeats<T: MainBackend>(
    tree: Tree,
    env: Map<Seq<char>, T::Model>,
    first: Result<T, EvalError>,
    second: Result<T, EvalError>,
)
    requires
        agrees::<T>(first, eval::<T>(tree, env)),
        agrees::<T>(second, eval::<T>(tree, env)),
    ensures
        first is Ok <==> second is Ok,
        first is Ok ==> first->Ok_0.model() == second->Ok_0.model(),
        first is Err ==> first->Err_0@ == second->Err_0@,
{
}

/// Whether a tree is made of literals, the first `n` input variables, and
/// unary and binary operators only.
pub open spec fn closed(tree: Tree, n: nat) -> bool
    decreases tree,
{
    match tree {
        Tree::Number(_) => true,
        Tree::Id(name) => exists|j: nat| j < n && name == crate::text::var_name(j),
        Tree::UnOp(_, e) => closed(*e, n),
        Tree::BinOp(_, l, r) => closed(*l, n) && closed(*r, n),
        _ => false,
    }
}

/// A tree over the first `n` input variables is one over the first `m`, for
/// every larger `m`.
pub proof fn closed_grows(tree: Tree, n: nat, m: nat)
    requires
        closed(tree, n),
        n <= m,
    ensures
        closed(tree, m),
    decreases tree,
{
    match tree {
        Tree::Id(name) => {
            let j = choose|j: nat| j < n && name == crate::text::var_name(j);
            assert(j < m && name == crate::text::var_name(j));
        },
        Tree::UnOp(_, e) => {
            closed_grows(*e, n, m);
        },
        Tree::BinOp(_, l, r) => {
            closed_grows(*l, n, m);
            closed_grows(*r, n, m);
        },
        _ => {},
    }
}

/// A tree over the first `n` input variables has a value in every environment
/// that binds them.
pub proof fn closed_evaluates<T: MainBackend>(tree: Tree, n: nat, env: Map<Seq<char>, T::Model>)
    requires
        closed(tree, n),
        forall|j: nat| j < n ==> env.contains_key(#[trigger] crate::text::var_name(j)),
    ensures
        eval::<T>(tree, env) is Ok,
    decreases tree,
{
    match tree {
        Tree::UnOp(_, e) => {
            closed_evaluates::<T>(*e, n, env);
        },
        Tree::BinOp(_, l, r) => {
            closed_evaluates::<T>(*l, n, env);
            closed_evaluates::<T>(*r, n, env);
        },
        _ => {},
    }
}

} // verus!
