//! The expression tree and its mathematical model.

use vstd::prelude::*;

verus! {

/// Binary operators.
#[derive(Debug, Clone, Copy, PartialEq, Eq, Structural)]
pub enum Op2 {
    Add,
    Sub,
    Mul,
    Div,
    Pow,
}

/// Unary operators.
#[derive(Debug, Clone, Copy, PartialEq, Eq, Structural)]
pub enum Op1 {
    Neg,
    Sin,
    Cos,
    Tan,
    Exp,
    Log,
    Sqrt,
    Abs,
}

/// Target types of a cast node.
#[derive(Debug, Clone, Copy, PartialEq, Eq, Structural)]
pub enum Type {
    Float,
    Int,
    Bool,
}

/// An expression whose every node carries a tag of type `T`.
///
/// A numeric literal holds the IEEE-754 bit pattern of a double.
#[derive(Debug)]
pub enum Expr<T> {
    Number(T, u64),
    Boolean(T, bool),
    Id(T, String),
    /// `let name_1 = e_1, ..., name_n = e_n in body`
    Let(T, Vec<(String, Expr<T>)>, Box<Expr<T>>),
    UnOp(T, Op1, Box<Expr<T>>),
    BinOp(T, Op2, Box<Expr<T>>, Box<Expr<T>>),
    If(T, Box<Expr<T>>, Box<Expr<T>>, Box<Expr<T>>),
    Loop(T, Box<Expr<T>>),
    Break(T, Box<Expr<T>>),
    /// Assignment to a mutable variable.
    Assign(T, String, Box<Expr<T>>),
    Block(T, Vec<Expr<T>>),
    Cast(T, Type, Box<Expr<T>>),
}

/// An expression without metadata.
pub type SimpleExpr = Expr<()>;

/// The mathematical model of an expression: the same tree without its tags,
/// with names as character sequences and children as sequences.
pub enum Tree {
    Number(u64),
    Boolean(bool),
    Id(Seq<char>),
    Let(Seq<(Seq<char>, Tree)>, Box<Tree>),
    UnOp(Op1, Box<Tree>),
    BinOp(Op2, Box<Tree>, Box<Tree>),
    If(Box<Tree>, Box<Tree>, Box<Tree>),
    Loop(Box<Tree>),
    Break(Box<Tree>),
    Assign(Seq<char>, Box<Tree>),
    Block(Seq<Tree>),
    Cast(Type, Box<Tree>),
}

/// The larger of two numbers.
pub open spec fn max_nat(a: nat, b: nat) -> nat {
    if a >= b {
        a
    } else {
        b
    }
}

impl Tree {
    /// The number of edges on the longest path from the root to a leaf.
    pub open spec fn depth(self) -> nat
        decreases self,
    {
        match self {
            Tree::Number(_) => 0,
            Tree::Boolean(_) => 0,
            Tree::Id(_) => 0,
            Tree::Let(bindings, body) => 1 + max_nat(
                Self::deepest_binding(bindings, bindings.len()),
                body.depth(),
            ),
            Tree::UnOp(_, e) => 1 + e.depth(),
            Tree::BinOp(_, l, r) => 1 + max_nat(l.depth(), r.depth()),
            Tree::If(c, t, e) => 1 + max_nat(c.depth(), max_nat(t.depth(), e.depth())),
            Tree::Loop(e) => 1 + e.depth(),
            Tree::Break(e) => 1 + e.depth(),
            Tree::Assign(_, e) => 1 + e.depth(),
            Tree::Block(items) => 1 + Self::deepest(items, items.len()),
            Tree::Cast(_, e) => 1 + e.depth(),
        }
    }

    /// The largest depth among the first `n` trees of `items`.
    pub open spec fn deepest(items: Seq<Tree>, n: nat) -> nat
        decreases items, n,
    {
        if n == 0 || n > items.len() {
            0
        } else {
            max_nat(items[n - 1].depth(), Self::deepest(items, (n - 1) as nat))
        }
    }

    /// The largest depth among the first `n` bound trees of `items`.
    pub open spec fn deepest_binding(items: Seq<(Seq<char>, Tree)>, n: nat) -> nat
        decreases items, n,
    {
        if n == 0 || n > items.len() {
            0
        } else {
            max_nat(items[n - 1].1.depth(), Self::deepest_binding(items, (n - 1) as nat))
        }
    }
}

impl<T> View for Expr<T> {
    type V = Tree;

    open spec fn view(&self) -> Tree {
        self.model()
    }
}

impl<T> Expr<T> {
    /// The tree that this expression denotes.
    pub open spec fn model(self) -> Tree
        decreases self,
    {
        match self {
            Expr::Number(_, bits) => Tree::Number(bits),
            Expr::Boolean(_, b) => Tree::Boolean(b),
            Expr::Id(_, name) => Tree::Id(name@),
            Expr::Let(_, bindings, body) => Tree::Let(
                Self::view_bindings(bindings@, bindings@.len()),
                Box::new(body.model()),
            ),
            Expr::UnOp(_, op, e) => Tree::UnOp(op, Box::new(e.model())),
            Expr::BinOp(_, op, l, r) => Tree::BinOp(op, Box::new(l.model()), Box::new(r.model())),
            Expr::If(_, c, t, e) => Tree::If(
                Box::new(c.model()),
                Box::new(t.model()),
                Box::new(e.model()),
            ),
            Expr::Loop(_, e) => Tree::Loop(Box::new(e.model())),
            Expr::Break(_, e) => Tree::Break(Box::new(e.model())),
            Expr::Assign(_, name, e) => Tree::Assign(name@, Box::new(e.model())),
            Expr::Block(_, items) => Tree::Block(Self::view_items(items@, items@.len())),
            Expr::Cast(_, ty, e) => Tree::Cast(ty, Box::new(e.model())),
        }
    }

    /// The models of the first `n` expressions of `items`.
    pub open spec fn view_items(items: Seq<Expr<T>>, n: nat) -> Seq<Tree>
        decreases items, n,
    {
        if n == 0 || n > items.len() {
            Seq::empty()
        } else {
            Self::view_items(items, (n - 1) as nat).push(items[n - 1].model())
        }
    }

    /// The models of the first `n` bindings of `items`.
    pub open spec fn view_bindings(items: Seq<(String, Expr<T>)>, n: nat) -> Seq<(Seq<char>, Tree)>
        decreases items, n,
    {
        if n == 0 || n > items.len() {
            Seq::empty()
        } else {
            Self::view_bindings(items, (n - 1) as nat).push(
                (items[n - 1].0@, items[n - 1].1.model()),
            )
        }
    }

    /// `view_items` maps the expressions one by one.
    pub proof fn view_items_index(items: Seq<Expr<T>>, n: nat)
        requires
            n <= items.len(),
        ensures
            Self::view_items(items, n).len() == n,
            forall|i: int| 0 <= i < n ==> (#[trigger] Self::view_items(items, n)[i]) == items[i]@,
        decreases n,
    {
        if n > 0 {
            Self::view_items_index(items, (n - 1) as nat);
        }
    }

    /// `view_bindings` maps the bindings one by one.
    pub proof fn view_bindings_index(items: Seq<(String, Expr<T>)>, n: nat)
        requires
            n <= items.len(),
        ensures
            Self::view_bindings(items, n).len() == n,
            forall|i: int|
                0 <= i < n ==> (#[trigger] Self::view_bindings(items, n)[i]) == (
                    items[i].0@,
                    items[i].1@,
                ),
        decreases n,
    {
        if n > 0 {
            Self::view_bindings_index(items, (n - 1) as nat);
        }
    }

    /// The tag of the root node.
    pub open spec fn spec_tag(self) -> T {
        match self {
            Expr::Number(t, _) => t,
            Expr::Boolean(t, _) => t,
            Expr::Id(t, _) => t,
            Expr::Let(t, _, _) => t,
            Expr::UnOp(t, _, _) => t,
            Expr::BinOp(t, _, _, _) => t,
            Expr::If(t, _, _, _) => t,
            Expr::Loop(t, _) => t,
            Expr::Break(t, _) => t,
            Expr::Assign(t, _, _) => t,
            Expr::Block(t, _) => t,
            Expr::Cast(t, _, _) => t,
        }
    }

    /// Get the tag of the root node.
    pub fn tag(&self) -> (t: &T)
        ensures
            *t == self.spec_tag(),
    {
        match self {
            Expr::Number(t, _) => t,
            Expr::Boolean(t, _) => t,
            Expr::Id(t, _) => t,
            Expr::Let(t, _, _) => t,
            Expr::UnOp(t, _, _) => t,
            Expr::BinOp(t, _, _, _) => t,
            Expr::If(t, _, _, _) => t,
            Expr::Loop(t, _) => t,
            Expr::Break(t, _) => t,
            Expr::Assign(t, _, _) => t,
            Expr::Block(t, _) => t,
            Expr::Cast(t, _, _) => t,
        }
    }
}

impl<T: Clone> Clone for Expr<T> {
    /// Copies the tree node by node; the tags are copied by their own `clone`.
    #[verifier::loop_isolation(false)]
    fn clone(&self) -> (res: Self)
        ensures
            res@ == self@,
        decreases self,
    {
        match self {
            Expr::Number(t, v) => Expr::Number(t.clone(), *v),
            Expr::Boolean(t, b) => Expr::Boolean(t.clone(), *b),
            Expr::Id(t, name) => Expr::Id(t.clone(), name.clone()),
            Expr::Let(t, bindings, body) => {
                let mut copies: Vec<(String, Expr<T>)> = Vec::new();
                let mut i: usize = 0;
                while i < bindings.len()
                    invariant
                        i <= bindings@.len(),
                        copies@.len() == i,
                        Self::view_bindings(copies@, i as nat) == Self::view_bindings(
                            bindings@,
                            i as nat,
                        ),
                    decreases bindings@.len() - i,
                {
                    let name = bindings[i].0.clone();
                    let value = (&bindings[i].1).clone();
                    let ghost before = copies@;
                    copies.push((name, value));
                    proof {
                        Self::view_bindings_prefix(before, copies@, i as nat);
                    }
                    i = i + 1;
                }
                Expr::Let(t.clone(), copies, Box::new((&**body).clone()))
            },
            Expr::UnOp(t, op, e) => Expr::UnOp(t.clone(), *op, Box::new((&**e).clone())),
            Expr::BinOp(t, op, l, r) => Expr::BinOp(
                t.clone(),
                *op,
                Box::new((&**l).clone()),
                Box::new((&**r).clone()),
            ),
            Expr::If(t, c, a, b) => Expr::If(
                t.clone(),
                Box::new((&**c).clone()),
                Box::new((&**a).clone()),
                Box::new((&**b).clone()),
            ),
            Expr::Loop(t, e) => Expr::Loop(t.clone(), Box::new((&**e).clone())),
            Expr::Break(t, e) => Expr::Break(t.clone(), Box::new((&**e).clone())),
            Expr::Assign(t, name, e) => Expr::Assign(
                t.clone(),
                name.clone(),
                Box::new((&**e).clone()),
            ),
            Expr::Block(t, exprs) => {
                let mut copies: Vec<Expr<T>> = Vec::new();
                let mut i: usize = 0;
                while i < exprs.len()
                    invariant
                        i <= exprs@.len(),
                        copies@.len() == i,
                        Self::view_items(copies@, i as nat) == Self::view_items(exprs@, i as nat),
                    decreases exprs@.len() - i,
                {
                    let value = (&exprs[i]).clone();
                    let ghost before = copies@;
                    copies.push(value);
                    proof {
                        Self::view_items_prefix(before, copies@, i as nat);
                    }
                    i = i + 1;
                }
                Expr::Block(t.clone(), copies)
            },
            Expr::Cast(t, ty, e) => Expr::Cast(t.clone(), *ty, Box::new((&**e).clone())),
        }
    }
}

impl<T> Expr<T> {
    /// `view_items` looks only at the first `n` items.
    pub proof fn view_items_prefix(xs: Seq<Expr<T>>, ys: Seq<Expr<T>>, n: nat)
        requires
            n <= xs.len(),
            n <= ys.len(),
            forall|i: int| 0 <= i < n ==> xs[i] == ys[i],
        ensures
            Self::view_items(xs, n) == Self::view_items(ys, n),
        decreases n,
    {
        if n > 0 {
            Self::view_items_prefix(xs, ys, (n - 1) as nat);
        }
    }

    /// `view_bindings` looks only at the first `n` bindings.
    pub proof fn view_bindings_prefix(
        xs: Seq<(String, Expr<T>)>,
        ys: Seq<(String, Expr<T>)>,
        n: nat,
    )
        requires
            n <= xs.len(),
            n <= ys.len(),
            forall|i: int| 0 <= i < n ==> xs[i] == ys[i],
        ensures
            Self::view_bindings(xs, n) == Self::view_bindings(ys, n),
        decreases n,
    {
        if n > 0 {
            Self::view_bindings_prefix(xs, ys, (n - 1) as nat);
        }
    }
}

impl Expr<()> {
    /// A numeric literal, given as the bit pattern of a double.
    pub fn num(bits: u64) -> (e: Self)
        ensures
            e@ == Tree::Number(bits),
    {
        Expr::Number((), bits)
    }

    /// A reference to the variable `name`.
    pub fn var(name: &str) -> (e: Self)
        ensures
            e@ == Tree::Id(name@),
    {
        Expr::Id((), String::from_str(name))
    }

    /// `left + right`
    pub fn add(left: SimpleExpr, right: SimpleExpr) -> (e: Self)
        ensures
            e@ == Tree::BinOp(Op2::Add, Box::new(left@), Box::new(right@)),
    {
        Expr::BinOp((), Op2::Add, Box::new(left), Box::new(right))
    }

    /// `left - right`
    pub fn sub(left: SimpleExpr, right: SimpleExpr) -> (e: Self)
        ensures
            e@ == Tree::BinOp(Op2::Sub, Box::new(left@), Box::new(right@)),
    {
        Expr::BinOp((), Op2::Sub, Box::new(left), Box::new(right))
    }

    /// `left * right`
    pub fn mul(left: SimpleExpr, right: SimpleExpr) -> (e: Self)
        ensures
            e@ == Tree::BinOp(Op2::Mul, Box::new(left@), Box::new(right@)),
    {
        Expr::BinOp((), Op2::Mul, Box::new(left), Box::new(right))
    }

    /// `left / right`
    pub fn div(left: SimpleExpr, right: SimpleExpr) -> (e: Self)
        ensures
            e@ == Tree::BinOp(Op2::Div, Box::new(left@), Box::new(right@)),
    {
        Expr::BinOp((), Op2::Div, Box::new(left), Box::new(right))
    }

    /// `base` to the power `exp`
    pub fn pow(base: SimpleExpr, exp: SimpleExpr) -> (e: Self)
        ensures
            e@ == Tree::BinOp(Op2::Pow, Box::new(base@), Box::new(exp@)),
    {
        Expr::BinOp((), Op2::Pow, Box::new(base), Box::new(exp))
    }

    /// The sine of `expr`.
    pub fn sin(expr: SimpleExpr) -> (e: Self)
        ensures
            e@ == Tree::UnOp(Op1::Sin, Box::new(expr@)),
    {
        Expr::UnOp((), Op1::Sin, Box::new(expr))
    }

    /// The cosine of `expr`.
    pub fn cos(expr: SimpleExpr) -> (e: Self)
        ensures
            e@ == Tree::UnOp(Op1::Cos, Box::new(expr@)),
    {
        Expr::UnOp((), Op1::Cos, Box::new(expr))
    }

    /// The exponential of `expr`.
    pub fn exp(expr: SimpleExpr) -> (e: Self)
        ensures
            e@ == Tree::UnOp(Op1::Exp, Box::new(expr@)),
    {
        Expr::UnOp((), Op1::Exp, Box::new(expr))
    }

    /// The square root of `expr`.
    pub fn sqrt(expr: SimpleExpr) -> (e: Self)
        ensures
            e@ == Tree::UnOp(Op1::Sqrt, Box::new(expr@)),
    {
        Expr::UnOp((), Op1::Sqrt, Box::new(expr))
    }

    /// `expr` negated.
    pub fn neg(expr: SimpleExpr) -> (e: Self)
        ensures
            e@ == Tree::UnOp(Op1::Neg, Box::new(expr@)),
    {
        Expr::UnOp((), Op1::Neg, Box::new(expr))
    }

    /// The natural logarithm of `expr`.
    pub fn log(expr: SimpleExpr) -> (e: Self)
        ensures
            e@ == Tree::UnOp(Op1::Log, Box::new(expr@)),
    {
        Expr::UnOp((), Op1::Log, Box::new(expr))
    }
}

impl Tree {
    /// Whether the double with the given bits is a literal of the tree.
    pub open spec fn holds(self, bits: u64) -> bool
        decreases self,
    {
        match self {
            Tree::Number(b) => b == bits,
            Tree::Boolean(_) => false,
            Tree::Id(_) => false,
            Tree::Let(bindings, body) => Self::bindings_hold(bindings, bits, bindings.len())
                || body.holds(bits),
            Tree::UnOp(_, e) => e.holds(bits),
            Tree::BinOp(_, l, r) => l.holds(bits) || r.holds(bits),
            Tree::If(c, t, e) => c.holds(bits) || t.holds(bits) || e.holds(bits),
            Tree::Loop(e) => e.holds(bits),
            Tree::Break(e) => e.holds(bits),
            Tree::Assign(_, e) => e.holds(bits),
            Tree::Block(items) => Self::items_hold(items, bits, items.len()),
            Tree::Cast(_, e) => e.holds(bits),
        }
    }

    /// Whether one of the first `n` trees holds the literal.
    pub open spec fn items_hold(items: Seq<Tree>, bits: u64, n: nat) -> bool
        decreases items, n,
    {
        if n == 0 || n > items.len() {
            false
        } else {
            Self::items_hold(items, bits, (n - 1) as nat) || items[n - 1].holds(bits)
        }
    }

    /// Whether one of the first `n` bound trees holds the literal.
    pub open spec fn bindings_hold(items: Seq<(Seq<char>, Tree)>, bits: u64, n: nat) -> bool
        decreases items, n,
    {
        if n == 0 || n > items.len() {
            false
        } else {
            Self::bindings_hold(items, bits, (n - 1) as nat) || items[n - 1].1.holds(bits)
        }
    }
}

/// What a sequence contains after one more element.
pub proof fn pushed_contains(s: Seq<u64>, b: u64)
    ensures
        forall|x: u64| #[trigger] s.push(b).contains(x) <==> (s.contains(x) || x == b),
{
    assert forall|x: u64| #[trigger] s.push(b).contains(x) <==> (s.contains(x) || x == b) by {
        if s.contains(x) {
            let i = choose|i: int| 0 <= i < s.len() && s[i] == x;
            assert(s.push(b)[i] == x);
        }
        if x == b {
            assert(s.push(b)[s.len() as int] == x);
        }
        if s.push(b).contains(x) {
            let i = choose|i: int| 0 <= i < s.push(b).len() && s.push(b)[i] == x;
            if i < s.len() {
                assert(s[i] == x);
            }
        }
    }
}

impl<T> Expr<T> {
    /// Adds the literals of the expression to `out`.
    #[verifier::loop_isolation(false)]
    pub fn collect_literals(&self, out: &mut Vec<u64>)
        ensures
            forall|b: u64| #[trigger]
                final(out)@.contains(b) <==> (old(out)@.contains(b) || self@.holds(b)),
        decreases self,
    {
        match self {
            Expr::Number(_, bits) => {
                proof {
                    pushed_contains(out@, *bits);
                }
                out.push(*bits);
            },
            Expr::Boolean(_, _) => {},
            Expr::Id(_, _) => {},
            Expr::Let(_, bindings, body) => {
                let ghost trees = Self::view_bindings(bindings@, bindings@.len());
                proof {
                    Self::view_bindings_index(bindings@, bindings@.len());
                }
                let mut i: usize = 0;
                while i < bindings.len()
                    invariant
                        i <= bindings@.len(),
                        forall|b: u64| #[trigger]
                            out@.contains(b) <==> (old(out)@.contains(b) || Tree::bindings_hold(
                                trees,
                                b,
                                i as nat,
                            )),
                    decreases bindings@.len() - i,
                {
                    assert(trees[i as int].1 == bindings@[i as int].1@);
                    (&bindings[i].1).collect_literals(out);
                    i = i + 1;
                }
                (&**body).collect_literals(out);
            },
            Expr::UnOp(_, _, e) => {
                (&**e).collect_literals(out);
            },
            Expr::BinOp(_, _, l, r) => {
                (&**l).collect_literals(out);
                (&**r).collect_literals(out);
            },
            Expr::If(_, c, t, e) => {
                (&**c).collect_literals(out);
                (&**t).collect_literals(out);
                (&**e).collect_literals(out);
            },
            Expr::Loop(_, e) => {
                (&**e).collect_literals(out);
            },
            Expr::Break(_, e) => {
                (&**e).collect_literals(out);
            },
            Expr::Assign(_, _, e) => {
                (&**e).collect_literals(out);
            },
            Expr::Block(_, items) => {
                let ghost trees = Self::view_items(items@, items@.len());
                proof {
                    Self::view_items_index(items@, items@.len());
                }
                let mut i: usize = 0;
                while i < items.len()
                    invariant
                        i <= items@.len(),
                        forall|b: u64| #[trigger]
                            out@.contains(b) <==> (old(out)@.contains(b) || Tree::items_hold(
                                trees,
                                b,
                                i as nat,
                            )),
                    decreases items@.len() - i,
                {
                    assert(trees[i as int] == items@[i as int]@);
                    (&items[i]).collect_literals(out);
                    i = i + 1;
                }
            },
            Expr::Cast(_, _, e) => {
                (&**e).collect_literals(out);
            },
        }
    }

    /// The literals of the expression.
    pub fn literals(&self) -> (out: Vec<u64>)
        ensures
            forall|b: u64| #[trigger] out@.contains(b) <==> self@.holds(b),
    {
        let mut out: Vec<u64> = Vec::new();
        self.collect_literals(&mut out);
        out
    }
}

} // verus!
