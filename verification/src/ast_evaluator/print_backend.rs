//! Printers: the evaluator at string-building backends, and a linear form.
//!
//! The S-expression and the infix printer are `evaluate` itself, run with a
//! backend whose values are texts with the literals left open. Both wrap every
//! operator application in brackets of its own, so the text shows the tree.
//!
//! How a double is written is the caller's to say: a printer takes a spelling,
//! the texts of the literals by their bits. A literal that the spelling leaves
//! out is written as its exact decimal expansion.

use super::{eval, evaluate, Env, EvalError, EvalFault, MainBackend};
use crate::ast_expr::{Expr, Op1, Op2, Tree, Type};
use crate::literal::{literal_text, render};
use crate::text::{
    decimal, join_lines, joined, lines, push_decimal, push_line, var_name, variable_name,
};
use std::collections::HashMap;
use vstd::prelude::*;

verus! {

broadcast use vstd::std_specs::hash::group_hash_axioms;

/// The text of a literal under a spelling: the text that the spelling gives
/// for its bits, and its exact decimal expansion where it gives none.
pub open spec fn spelled(spell: Map<u64, String>, bits: u64) -> Seq<char> {
    if spell.contains_key(bits) {
        spell[bits]@
    } else {
        literal_text(bits)
    }
}

/// Writes a literal under a spelling.
pub fn spell_out(bits: u64, spelling: &HashMap<u64, String>) -> (s: String)
    ensures
        s@ == spelled(spelling@, bits),
{
    match spelling.get(&bits) {
        Some(text) => text.clone(),
        None => render(bits),
    }
}

/// A part of a text: characters, or a literal that is yet to be written.
#[derive(Debug)]
pub enum Piece {
    Text(String),
    Literal(u64),
}

/// The model of a `Piece`.
pub enum PieceView {
    Text(Seq<char>),
    Literal(u64),
}

impl View for Piece {
    type V = PieceView;

    open spec fn view(&self) -> PieceView {
        match self {
            Piece::Text(text) => PieceView::Text(text@),
            Piece::Literal(bits) => PieceView::Literal(*bits),
        }
    }
}

/// The models of the pieces.
pub open spec fn pieces(v: Seq<Piece>) -> Seq<PieceView> {
    Seq::new(v.len(), |i: int| v[i]@)
}

/// The text of one piece under a spelling.
pub open spec fn piece_text(piece: PieceView, spell: Map<u64, String>) -> Seq<char> {
    match piece {
        PieceView::Text(text) => text,
        PieceView::Literal(bits) => spelled(spell, bits),
    }
}

/// The text of the pieces in a row, with every literal written as the spelling
/// says.
pub open spec fn filled(parts: Seq<PieceView>, spell: Map<u64, String>) -> Seq<char>
    decreases parts.len(),
{
    if parts.len() == 0 {
        Seq::empty()
    } else {
        filled(parts.drop_last(), spell) + piece_text(parts.last(), spell)
    }
}

/// The text of two rows of pieces is the text of the one and then of the other.
pub proof fn filled_concat(a: Seq<PieceView>, b: Seq<PieceView>, spell: Map<u64, String>)
    ensures
        filled(a + b, spell) == filled(a, spell) + filled(b, spell),
    decreases b.len(),
{
    if b.len() == 0 {
        assert(a + b =~= a);
        assert(filled(a, spell) + filled(b, spell) =~= filled(a, spell));
    } else {
        filled_concat(a, b.drop_last(), spell);
        assert((a + b).drop_last() =~= a + b.drop_last());
        assert((a + b).last() == b.last());
        assert(filled(a + b, spell) =~= filled(a, spell) + filled(b, spell));
    }
}

/// The text of a single piece.
pub proof fn filled_one(piece: PieceView, spell: Map<u64, String>)
    ensures
        filled(seq![piece], spell) == piece_text(piece, spell),
{
    assert(seq![piece].drop_last() =~= Seq::<PieceView>::empty());
    assert(filled(seq![piece].drop_last(), spell) =~= Seq::<char>::empty());
    assert(seq![piece].last() == piece);
    assert(filled(seq![piece], spell) =~= piece_text(piece, spell));
}

/// Writes the pieces out in a row.
pub fn fill(parts: &Vec<Piece>, spelling: &HashMap<u64, String>) -> (s: String)
    ensures
        s@ == filled(pieces(parts@), spelling@),
{
    let mut s = String::new();
    let mut i: usize = 0;
    let ghost all = pieces(parts@);
    assert(all.take(0) =~= Seq::<PieceView>::empty());
    while i < parts.len()
        invariant
            i <= parts@.len(),
            all == pieces(parts@),
            s@ == filled(all.take(i as int), spelling@),
        decreases parts@.len() - i,
    {
        match &parts[i] {
            Piece::Text(text) => {
                s.append(text.as_str());
            },
            Piece::Literal(bits) => {
                s.append(spell_out(*bits, spelling).as_str());
            },
        }
        proof {
            assert(all.take(i as int + 1).drop_last() =~= all.take(i as int));
            assert(all.take(i as int + 1).last() == parts@[i as int]@);
        }
        i = i + 1;
    }
    assert(all.take(parts@.len() as int) =~= all);
    s
}

/// The piece that holds the given characters.
fn text_piece(text: &str) -> (p: Piece)
    ensures
        p@ == PieceView::Text(text@),
{
    Piece::Text(String::from_str(text))
}

/// `prefix`, the pieces and `suffix` in a row.
fn wrap(prefix: &str, parts: Vec<Piece>, suffix: &str) -> (r: Vec<Piece>)
    ensures
        pieces(r@) == seq![PieceView::Text(prefix@)] + pieces(parts@) + seq![
            PieceView::Text(suffix@),
        ],
{
    let mut r = parts;
    r.insert(0, text_piece(prefix));
    r.push(text_piece(suffix));
    assert(pieces(r@) =~= seq![PieceView::Text(prefix@)] + pieces(parts@) + seq![
        PieceView::Text(suffix@),
    ]);
    r
}

/// `prefix`, the pieces `x`, `middle`, the pieces `y` and `suffix` in a row.
fn wrap2(prefix: &str, x: Vec<Piece>, middle: &str, y: Vec<Piece>, suffix: &str) -> (r: Vec<Piece>)
    ensures
        pieces(r@) == seq![PieceView::Text(prefix@)] + pieces(x@) + seq![PieceView::Text(middle@)]
            + pieces(y@) + seq![PieceView::Text(suffix@)],
{
    let mut r = x;
    let mut rest = y;
    r.insert(0, text_piece(prefix));
    r.push(text_piece(middle));
    r.append(&mut rest);
    r.push(text_piece(suffix));
    assert(pieces(r@) =~= seq![PieceView::Text(prefix@)] + pieces(x@) + seq![
        PieceView::Text(middle@),
    ] + pieces(y@) + seq![PieceView::Text(suffix@)]);
    r
}

/// The pieces of a single text.
fn single(text: &str) -> (r: Vec<Piece>)
    ensures
        pieces(r@) == seq![PieceView::Text(text@)],
{
    let mut r: Vec<Piece> = Vec::new();
    r.push(text_piece(text));
    assert(pieces(r@) =~= seq![PieceView::Text(text@)]);
    r
}

/// The pieces of a single literal.
fn hole(bits: u64) -> (r: Vec<Piece>)
    ensures
        pieces(r@) == seq![PieceView::Literal(bits)],
{
    let mut r: Vec<Piece> = Vec::new();
    r.push(Piece::Literal(bits));
    assert(pieces(r@) =~= seq![PieceView::Literal(bits)]);
    r
}

/// A copy of the pieces.
fn copy_pieces(parts: &Vec<Piece>) -> (r: Vec<Piece>)
    ensures
        pieces(r@) == pieces(parts@),
{
    let mut r: Vec<Piece> = Vec::new();
    let mut i: usize = 0;
    while i < parts.len()
        invariant
            i <= parts@.len(),
            r@.len() == i,
            forall|j: int| 0 <= j < i ==> r@[j]@ == parts@[j]@,
        decreases parts@.len() - i,
    {
        let piece = match &parts[i] {
            Piece::Text(text) => Piece::Text(text.clone()),
            Piece::Literal(bits) => Piece::Literal(*bits),
        };
        r.push(piece);
        i = i + 1;
    }
    assert(pieces(r@) =~= pieces(parts@));
    r
}

/// Whether two rows of pieces are the same.
fn same_pieces(a: &Vec<Piece>, b: &Vec<Piece>) -> (r: bool)
    ensures
        r == (pieces(a@) == pieces(b@)),
{
    if a.len() != b.len() {
        assert(pieces(a@).len() != pieces(b@).len());
        return false;
    }
    let mut i: usize = 0;
    while i < a.len()
        invariant
            i <= a@.len(),
            a@.len() == b@.len(),
            forall|j: int| 0 <= j < i ==> a@[j]@ == b@[j]@,
        decreases a@.len() - i,
    {
        let same = match (&a[i], &b[i]) {
            (Piece::Text(s), Piece::Text(t)) => *s == *t,
            (Piece::Literal(x), Piece::Literal(y)) => *x == *y,
            _ => false,
        };
        if !same {
            assert(pieces(a@)[i as int] != pieces(b@)[i as int]);
            return false;
        }
        i = i + 1;
    }
    assert(pieces(a@) =~= pieces(b@));
    true
}

/// `prefix`, `x` and `suffix` in a row.
fn join3(prefix: &str, x: &String, suffix: &str) -> (r: String)
    ensures
        r@ == prefix@ + x@ + suffix@,
{
    let mut r = String::from_str(prefix);
    r.append(x.as_str());
    r.append(suffix);
    r
}

/// `prefix`, `x`, `middle`, `y` and `suffix` in a row.
fn join5(prefix: &str, x: &String, middle: &str, y: &String, suffix: &str) -> (r: String)
    ensures
        r@ == prefix@ + x@ + middle@ + y@ + suffix@,
{
    let mut r = String::from_str(prefix);
    r.append(x.as_str());
    r.append(middle);
    r.append(y.as_str());
    r.append(suffix);
    r
}

/// The environment in which each of the first `n` input variables stands for
/// its own name.
pub open spec fn names_env(n: nat) -> Map<Seq<char>, Seq<PieceView>>
    decreases n,
{
    if n == 0 {
        Map::empty()
    } else {
        names_env((n - 1) as nat).insert(
            var_name((n - 1) as nat),
            seq![PieceView::Text(var_name((n - 1) as nat))],
        )
    }
}

/// The text that stands for a result under a spelling: the value written out,
/// or the error in angle brackets.
pub open spec fn shown(r: Result<Seq<PieceView>, EvalFault>, spell: Map<u64, String>) -> Seq<char> {
    match r {
        Ok(parts) => filled(parts, spell),
        Err(fault) => "<error: "@ + fault.message() + ">"@,
    }
}

/// What is written before the operand of a unary operator in an S-expression.
pub open spec fn sexpr_open(op: Op1) -> Seq<char> {
    match op {
        Op1::Neg => "(neg "@,
        Op1::Sin => "(sin "@,
        Op1::Cos => "(cos "@,
        Op1::Tan => "(tan "@,
        Op1::Exp => "(exp "@,
        Op1::Log => "(log "@,
        Op1::Sqrt => "(sqrt "@,
        Op1::Abs => "(abs "@,
    }
}

/// What is written before the operands of a binary operator in an
/// S-expression.
pub open spec fn sexpr_open2(op: Op2) -> Seq<char> {
    match op {
        Op2::Add => "(+ "@,
        Op2::Sub => "(- "@,
        Op2::Mul => "(* "@,
        Op2::Div => "(/ "@,
        Op2::Pow => "(pow "@,
    }
}

/// The S-expression of a unary operator applied to `x`.
pub open spec fn sexpr_unary(op: Op1, x: Seq<PieceView>) -> Seq<PieceView> {
    seq![PieceView::Text(sexpr_open(op))] + x + seq![PieceView::Text(")"@)]
}

/// The S-expression of a binary operator applied to `x` and `y`.
pub open spec fn sexpr_binary(op: Op2, x: Seq<PieceView>, y: Seq<PieceView>) -> Seq<PieceView> {
    seq![PieceView::Text(sexpr_open2(op))] + x + seq![PieceView::Text(" "@)] + y + seq![
        PieceView::Text(")"@),
    ]
}

/// A text in S-expression form, with its literals left open.
#[derive(Debug)]
pub struct SExprString(Vec<Piece>);

impl View for SExprString {
    type V = Seq<PieceView>;

    closed spec fn view(&self) -> Seq<PieceView> {
        pieces(self.0@)
    }
}

impl SExprString {
    /// The text, with the literals written as the spelling says.
    pub fn into_string(self, spelling: &HashMap<u64, String>) -> (s: String)
        ensures
            s@ == filled(self@, spelling@),
    {
        fill(&self.0, spelling)
    }
}

impl MainBackend for SExprString {
    type Model = Seq<PieceView>;

    open spec fn model(&self) -> Seq<PieceView> {
        self@
    }

    open spec fn literal(bits: u64) -> Seq<PieceView> {
        seq![PieceView::Literal(bits)]
    }

    open spec fn zero_model() -> Seq<PieceView> {
        seq![PieceView::Text("0"@)]
    }

    open spec fn one_model() -> Seq<PieceView> {
        seq![PieceView::Text("1"@)]
    }

    open spec fn unary(op: Op1, x: Seq<PieceView>) -> Seq<PieceView> {
        sexpr_unary(op, x)
    }

    open spec fn binary(op: Op2, x: Seq<PieceView>, y: Seq<PieceView>) -> Seq<PieceView> {
        sexpr_binary(op, x, y)
    }

    fn from_f64(bits: u64) -> (r: Self) {
        SExprString(hole(bits))
    }

    fn zero() -> (r: Self) {
        SExprString(single("0"))
    }

    fn one() -> (r: Self) {
        SExprString(single("1"))
    }

    fn neg(self) -> (r: Self) {
        SExprString(wrap("(neg ", self.0, ")"))
    }

    fn sin(self) -> (r: Self) {
        SExprString(wrap("(sin ", self.0, ")"))
    }

    fn cos(self) -> (r: Self) {
        SExprString(wrap("(cos ", self.0, ")"))
    }

    fn tan(self) -> (r: Self) {
        SExprString(wrap("(tan ", self.0, ")"))
    }

    fn exp(self) -> (r: Self) {
        SExprString(wrap("(exp ", self.0, ")"))
    }

    fn log(self) -> (r: Self) {
        SExprString(wrap("(log ", self.0, ")"))
    }

    fn sqrt(self) -> (r: Self) {
        SExprString(wrap("(sqrt ", self.0, ")"))
    }

    fn abs(self) -> (r: Self) {
        SExprString(wrap("(abs ", self.0, ")"))
    }

    fn add(self, other: Self) -> (r: Self) {
        SExprString(wrap2("(+ ", self.0, " ", other.0, ")"))
    }

    fn sub(self, other: Self) -> (r: Self) {
        SExprString(wrap2("(- ", self.0, " ", other.0, ")"))
    }

    fn mul(self, other: Self) -> (r: Self) {
        SExprString(wrap2("(* ", self.0, " ", other.0, ")"))
    }

    fn div(self, other: Self) -> (r: Self) {
        SExprString(wrap2("(/ ", self.0, " ", other.0, ")"))
    }

    fn pow(self, other: Self) -> (r: Self) {
        SExprString(wrap2("(pow ", self.0, " ", other.0, ")"))
    }

    fn duplicate(&self) -> (r: Self) {
        SExprString(copy_pieces(&self.0))
    }
}

/// What is written before the operand of a unary operator in infix form.
pub open spec fn infix_open(op: Op1) -> Seq<char> {
    match op {
        Op1::Neg => "-("@,
        Op1::Sin => "sin("@,
        Op1::Cos => "cos("@,
        Op1::Tan => "tan("@,
        Op1::Exp => "exp("@,
        Op1::Log => "ln("@,
        Op1::Sqrt => "sqrt("@,
        Op1::Abs => "abs("@,
    }
}

/// What is written between the operands of a binary operator in infix form.
pub open spec fn infix_sign(op: Op2) -> Seq<char> {
    match op {
        Op2::Add => " + "@,
        Op2::Sub => " - "@,
        Op2::Mul => " * "@,
        Op2::Div => " / "@,
        Op2::Pow => " ^ "@,
    }
}

/// The infix text of a unary operator applied to `x`.
pub open spec fn infix_unary(op: Op1, x: Seq<PieceView>) -> Seq<PieceView> {
    seq![PieceView::Text(infix_open(op))] + x + seq![PieceView::Text(")"@)]
}

/// The infix text of a binary operator applied to `x` and `y`, in parentheses.
pub open spec fn infix_binary(op: Op2, x: Seq<PieceView>, y: Seq<PieceView>) -> Seq<PieceView> {
    seq![PieceView::Text("("@)] + x + seq![PieceView::Text(infix_sign(op))] + y + seq![
        PieceView::Text(")"@),
    ]
}

/// A text in infix form, with its literals left open.
#[derive(Debug)]
pub struct InfixString(Vec<Piece>);

impl View for InfixString {
    type V = Seq<PieceView>;

    closed spec fn view(&self) -> Seq<PieceView> {
        pieces(self.0@)
    }
}

impl InfixString {
    /// The text, with the literals written as the spelling says.
    pub fn into_string(self, spelling: &HashMap<u64, String>) -> (s: String)
        ensures
            s@ == filled(self@, spelling@),
    {
        fill(&self.0, spelling)
    }

    /// The text of a name.
    pub fn name(text: &str) -> (r: Self)
        ensures
            r@ == seq![PieceView::Text(text@)],
    {
        InfixString(single(text))
    }

    /// The square, written as a power.
    pub fn squared(self) -> (r: Self)
        ensures
            r@ == seq![PieceView::Text("("@)] + self@ + seq![PieceView::Text(" ^ 2)"@)],
    {
        InfixString(wrap("(", self.0, " ^ 2)"))
    }

    /// Whether two texts are made of the same pieces.
    pub fn same_text(&self, other: &Self) -> (b: bool)
        ensures
            b == (self@ == other@),
    {
        same_pieces(&self.0, &other.0)
    }
}

impl MainBackend for InfixString {
    type Model = Seq<PieceView>;

    open spec fn model(&self) -> Seq<PieceView> {
        self@
    }

    open spec fn literal(bits: u64) -> Seq<PieceView> {
        seq![PieceView::Literal(bits)]
    }

    open spec fn zero_model() -> Seq<PieceView> {
        seq![PieceView::Text("0"@)]
    }

    open spec fn one_model() -> Seq<PieceView> {
        seq![PieceView::Text("1"@)]
    }

    open spec fn unary(op: Op1, x: Seq<PieceView>) -> Seq<PieceView> {
        infix_unary(op, x)
    }

    open spec fn binary(op: Op2, x: Seq<PieceView>, y: Seq<PieceView>) -> Seq<PieceView> {
        infix_binary(op, x, y)
    }

    fn from_f64(bits: u64) -> (r: Self) {
        InfixString(hole(bits))
    }

    fn zero() -> (r: Self) {
        InfixString(single("0"))
    }

    fn one() -> (r: Self) {
        InfixString(single("1"))
    }

    fn neg(self) -> (r: Self) {
        InfixString(wrap("-(", self.0, ")"))
    }

    fn sin(self) -> (r: Self) {
        InfixString(wrap("sin(", self.0, ")"))
    }

    fn cos(self) -> (r: Self) {
        InfixString(wrap("cos(", self.0, ")"))
    }

    fn tan(self) -> (r: Self) {
        InfixString(wrap("tan(", self.0, ")"))
    }

    fn exp(self) -> (r: Self) {
        InfixString(wrap("exp(", self.0, ")"))
    }

    fn log(self) -> (r: Self) {
        InfixString(wrap("ln(", self.0, ")"))
    }

    fn sqrt(self) -> (r: Self) {
        InfixString(wrap("sqrt(", self.0, ")"))
    }

    fn abs(self) -> (r: Self) {
        InfixString(wrap("abs(", self.0, ")"))
    }

    fn add(self, other: Self) -> (r: Self) {
        InfixString(wrap2("(", self.0, " + ", other.0, ")"))
    }

    fn sub(self, other: Self) -> (r: Self) {
        InfixString(wrap2("(", self.0, " - ", other.0, ")"))
    }

    fn mul(self, other: Self) -> (r: Self) {
        InfixString(wrap2("(", self.0, " * ", other.0, ")"))
    }

    fn div(self, other: Self) -> (r: Self) {
        InfixString(wrap2("(", self.0, " / ", other.0, ")"))
    }

    fn pow(self, other: Self) -> (r: Self) {
        InfixString(wrap2("(", self.0, " ^ ", other.0, ")"))
    }

    fn duplicate(&self) -> (r: Self) {
        InfixString(copy_pieces(&self.0))
    }
}

/// Prints expressions as S-expressions.
pub struct SExprPrinter;

impl SExprPrinter {
    /// The S-expression of `expr`, in which the first `num_inputs` input
    /// variables may occur and the literals are written as `spelling` says; an
    /// error in angle brackets where it has none.
    pub fn print<Tag>(expr: &Expr<Tag>, num_inputs: usize, spelling: &HashMap<u64, String>) -> (s:
        String)
        ensures
            s@ == shown(eval::<SExprString>(expr@, names_env(num_inputs as nat)), spelling@),
    {
        let env = Self::build_env(num_inputs);
        match evaluate::<SExprString, Tag>(expr, &env) {
            Ok(result) => fill(&result.0, spelling),
            Err(e) => join3("<error: ", &e.message(), ">"),
        }
    }

    /// The environment that binds each of the first `num_inputs` input
    /// variables to its own name.
    pub fn build_env(num_inputs: usize) -> (env: Env<SExprString>)
        ensures
            env@ == names_env(num_inputs as nat),
    {
        let mut env = Env::new();
        let mut i: usize = 0;
        while i < num_inputs
            invariant
                i <= num_inputs,
                env@ == names_env(i as nat),
            decreases num_inputs - i,
        {
            env.insert(variable_name(i), SExprString(single(variable_name(i).as_str())));
            i = i + 1;
        }
        env
    }
}

/// Prints expressions in infix form.
pub struct InfixPrinter;

impl InfixPrinter {
    /// The infix text of `expr`, in which the first `num_inputs` input
    /// variables may occur and the literals are written as `spelling` says; an
    /// error in angle brackets where it has none.
    pub fn print<Tag>(expr: &Expr<Tag>, num_inputs: usize, spelling: &HashMap<u64, String>) -> (s:
        String)
        ensures
            s@ == shown(eval::<InfixString>(expr@, names_env(num_inputs as nat)), spelling@),
    {
        let env = Self::build_env(num_inputs);
        match evaluate::<InfixString, Tag>(expr, &env) {
            Ok(result) => fill(&result.0, spelling),
            Err(e) => join3("<error: ", &e.message(), ">"),
        }
    }

    /// The environment that binds each of the first `num_inputs` input
    /// variables to its own name.
    pub fn build_env(num_inputs: usize) -> (env: Env<InfixString>)
        ensures
            env@ == names_env(num_inputs as nat),
    {
        let mut env = Env::new();
        let mut i: usize = 0;
        while i < num_inputs
            invariant
                i <= num_inputs,
                env@ == names_env(i as nat),
            decreases num_inputs - i,
        {
            env.insert(variable_name(i), InfixString(single(variable_name(i).as_str())));
            i = i + 1;
        }
        env
    }
}

/// The state of a linearization: the number of the next temporary and the
/// statements written so far.
pub struct Linear {
    pub counter: usize,
    pub statements: Seq<Seq<char>>,
}

impl Linear {
    /// The state after one more statement.
    pub open spec fn with(self, statement: Seq<char>) -> Linear {
        Linear { counter: self.counter, statements: self.statements.push(statement) }
    }

    /// The state after a temporary has been taken. The count starts over where
    /// the machine's integers end.
    pub open spec fn bumped(self) -> Linear {
        Linear {
            counter: if self.counter == usize::MAX {
                0
            } else {
                (self.counter + 1) as usize
            },
            statements: self.statements,
        }
    }

    /// The name of the next temporary.
    pub open spec fn temp(self) -> Seq<char> {
        "t"@ + decimal(self.counter as nat)
    }
}

/// The statement that assigns a unary operation to `target`.
pub open spec fn ssa_unary(op: Op1, target: Seq<char>, arg: Seq<char>) -> Seq<char> {
    match op {
        Op1::Neg => target + " = -"@ + arg,
        Op1::Sin => target + " = sin("@ + arg + ")"@,
        Op1::Cos => target + " = cos("@ + arg + ")"@,
        Op1::Tan => target + " = tan("@ + arg + ")"@,
        Op1::Exp => target + " = exp("@ + arg + ")"@,
        Op1::Log => target + " = log("@ + arg + ")"@,
        Op1::Sqrt => target + " = sqrt("@ + arg + ")"@,
        Op1::Abs => target + " = abs("@ + arg + ")"@,
    }
}

/// The sign of a binary operator in a statement.
pub open spec fn ssa_symbol(op: Op2) -> Seq<char> {
    match op {
        Op2::Add => "+"@,
        Op2::Sub => "-"@,
        Op2::Mul => "*"@,
        Op2::Div => "/"@,
        Op2::Pow => "**"@,
    }
}

/// The name of a type in a cast.
pub open spec fn cast_name(ty: Type) -> Seq<char> {
    match ty {
        Type::Float => "float"@,
        Type::Int => "int"@,
        Type::Bool => "bool"@,
    }
}

/// The linear form of a tree: the operand that stands for its value, and the
/// state after the statements that compute it.
///
/// Operands come first, left to right; each operator application then takes
/// the next temporary and writes one statement.
pub open spec fn linearize(tree: Tree, st: Linear, spell: Map<u64, String>) -> (Seq<char>, Linear)
    decreases tree,
{
    match tree {
        Tree::Number(bits) => (spelled(spell, bits), st),
        Tree::Boolean(b) => (
            if b {
                "true"@
            } else {
                "false"@
            },
            st,
        ),
        Tree::Id(name) => (name, st),
        Tree::Let(bindings, body) => linearize(
            *body,
            linearize_bindings(bindings, st, bindings.len(), spell),
            spell,
        ),
        Tree::UnOp(op, e) => {
            let (arg, s1) = linearize(*e, st, spell);
            (s1.temp(), s1.bumped().with(ssa_unary(op, s1.temp(), arg)))
        },
        Tree::BinOp(op, l, r) => {
            let (left, s1) = linearize(*l, st, spell);
            let (right, s2) = linearize(*r, s1, spell);
            (
                s2.temp(),
                s2.bumped().with(s2.temp() + " = "@ + left + " "@ + ssa_symbol(op) + " "@ + right),
            )
        },
        Tree::If(c, t, e) => {
            let (cond, s1) = linearize(*c, st, spell);
            let s2 = s1.bumped().with(s1.temp() + " = if "@ + cond + " then"@);
            let (then_val, s3) = linearize(*t, s2, spell);
            let s4 = s3.with("  "@ + then_val).with("else"@);
            let (else_val, s5) = linearize(*e, s4, spell);
            (s1.temp(), s5.with("  "@ + else_val))
        },
        Tree::Loop(e) => {
            let s1 = st.bumped().with(st.temp() + " = loop"@);
            let (body, s2) = linearize(*e, s1, spell);
            (st.temp(), s2.with("  "@ + body))
        },
        Tree::Break(e) => {
            let (value, s1) = linearize(*e, st, spell);
            ("break "@ + value, s1)
        },
        Tree::Assign(name, e) => {
            let (value, s1) = linearize(*e, st, spell);
            (name, s1.with(name + " = "@ + value))
        },
        Tree::Block(items) => linearize_block(items, st, items.len(), spell),
        Tree::Cast(ty, e) => {
            let (value, s1) = linearize(*e, st, spell);
            (
                s1.temp(),
                s1.bumped().with(s1.temp() + " = ("@ + cast_name(ty) + ") "@ + value),
            )
        },
    }
}

/// The state after the first `n` bindings, each written as an assignment.
pub open spec fn linearize_bindings(
    bindings: Seq<(Seq<char>, Tree)>,
    st: Linear,
    n: nat,
    spell: Map<u64, String>,
) -> Linear
    decreases bindings, n,
{
    if n == 0 || n > bindings.len() {
        st
    } else {
        let (value, s1) = linearize(
            bindings[n - 1].1,
            linearize_bindings(bindings, st, (n - 1) as nat, spell),
            spell,
        );
        s1.with(bindings[n - 1].0 + " = "@ + value)
    }
}

/// The linear form of the block made of the first `n` items: the operand of the
/// last one, and no operand for an empty block.
pub open spec fn linearize_block(
    items: Seq<Tree>,
    st: Linear,
    n: nat,
    spell: Map<u64, String>,
) -> (Seq<char>, Linear)
    decreases items, n,
{
    if n == 0 || n > items.len() {
        (Seq::empty(), st)
    } else {
        linearize(items[n - 1], linearize_block(items, st, (n - 1) as nat, spell).1, spell)
    }
}

/// The text of the three-address form of a tree: the operand alone where no
/// statement was written, else the statements and a `return`, one per line.
pub open spec fn ssa_text(tree: Tree, spell: Map<u64, String>) -> Seq<char> {
    let (value, st) = linearize(tree, Linear { counter: 0, statements: Seq::empty() }, spell);
    if st.statements.len() == 0 {
        value
    } else {
        let all = st.statements.push("return "@ + value);
        joined(all, "\n"@, all.len())
    }
}

/// Prints expressions as a list of three-address statements.
pub struct SSAPrinter;

impl SSAPrinter {
    /// The three-address form of `expr`, with the literals written as
    /// `spelling` says.
    pub fn print<T>(expr: &Expr<T>, spelling: &HashMap<u64, String>) -> (s: String)
        ensures
            s@ == ssa_text(expr@, spelling@),
    {
        let mut counter: usize = 0;
        let mut statements: Vec<String> = Vec::new();
        assert(lines(statements@) =~= Seq::<Seq<char>>::empty());
        let result = Self::print_helper(expr, &mut counter, &mut statements, spelling);
        if statements.len() == 0 {
            result
        } else {
            push_line(&mut statements, join3("return ", &result, ""));
            assert("return "@ + result@ + ""@ =~= "return "@ + result@) by {
                reveal_strlit("");
            }
            join_lines(&statements, "\n")
        }
    }

    /// Takes the next temporary: its name, and the counter moved on.
    fn take_temp(counter: &mut usize) -> (name: String)
        ensures
            name@ == "t"@ + decimal(*old(counter) as nat),
            *final(counter) == if *old(counter) == usize::MAX {
                0
            } else {
                (*old(counter) + 1) as usize
            },
    {
        let mut name = String::from_str("t");
        push_decimal(&mut name, *counter as u64);
        if *counter == usize::MAX {
            *counter = 0;
        } else {
            *counter = *counter + 1;
        }
        name
    }

    /// Writes the statements that compute `expr` and returns the operand that
    /// stands for its value.
    #[verifier::loop_isolation(false)]
    pub fn print_helper<T>(
        expr: &Expr<T>,
        counter: &mut usize,
        statements: &mut Vec<String>,
        spelling: &HashMap<u64, String>,
    ) -> (r: String)
        ensures
            ({
                let out = linearize(
                    expr@,
                    Linear { counter: *old(counter), statements: lines(old(statements)@) },
                    spelling@,
                );
                &&& r@ == out.0
                &&& *final(counter) == out.1.counter
                &&& lines(final(statements)@) == out.1.statements
            }),
        decreases expr,
    {
        match expr {
            Expr::Number(_, n) => spell_out(*n, spelling),
            Expr::Boolean(_, b) => {
                if *b {
                    String::from_str("true")
                } else {
                    String::from_str("false")
                }
            },
            Expr::Id(_, name) => name.clone(),
            Expr::Let(_, bindings, body) => {
                let ghost trees = Expr::<T>::view_bindings(bindings@, bindings@.len());
                let ghost start = Linear {
                    counter: *old(counter),
                    statements: lines(old(statements)@),
                };
                proof {
                    Expr::<T>::view_bindings_index(bindings@, bindings@.len());
                }
                let mut i: usize = 0;
                while i < bindings.len()
                    invariant
                        i <= bindings@.len(),
                        linearize_bindings(trees, start, i as nat, spelling@) == (Linear {
                            counter: *counter,
                            statements: lines(statements@),
                        }),
                    decreases bindings@.len() - i,
                {
                    let val = Self::print_helper(&bindings[i].1, counter, statements, spelling);
                    push_line(statements, join5("", &bindings[i].0, " = ", &val, ""));
                    proof {
                        reveal_strlit("");
                        assert(""@ + bindings@[i as int].0@ + " = "@ + val@ + ""@
                            =~= bindings@[i as int].0@ + " = "@ + val@);
                    }
                    i = i + 1;
                }
                Self::print_helper(&**body, counter, statements, spelling)
            },
            Expr::UnOp(_, op, e) => {
                let arg = Self::print_helper(&**e, counter, statements, spelling);
                let var_name = Self::take_temp(counter);
                let stmt = match op {
                    Op1::Neg => join5("", &var_name, " = -", &arg, ""),
                    Op1::Sin => join5("", &var_name, " = sin(", &arg, ")"),
                    Op1::Cos => join5("", &var_name, " = cos(", &arg, ")"),
                    Op1::Tan => join5("", &var_name, " = tan(", &arg, ")"),
                    Op1::Exp => join5("", &var_name, " = exp(", &arg, ")"),
                    Op1::Log => join5("", &var_name, " = log(", &arg, ")"),
                    Op1::Sqrt => join5("", &var_name, " = sqrt(", &arg, ")"),
                    Op1::Abs => join5("", &var_name, " = abs(", &arg, ")"),
                };
                proof {
                    reveal_strlit("");
                    assert(stmt@ =~= ssa_unary(*op, var_name@, arg@));
                }
                push_line(statements, stmt);
                var_name
            },
            Expr::BinOp(_, op, left, right) => {
                let left_val = Self::print_helper(&**left, counter, statements, spelling);
                let right_val = Self::print_helper(&**right, counter, statements, spelling);
                let var_name = Self::take_temp(counter);
                let op_str = match op {
                    Op2::Add => "+",
                    Op2::Sub => "-",
                    Op2::Mul => "*",
                    Op2::Div => "/",
                    Op2::Pow => "**",
                };
                let mut stmt = join5("", &var_name, " = ", &left_val, " ");
                stmt.append(op_str);
                stmt.append(" ");
                stmt.append(right_val.as_str());
                proof {
                    reveal_strlit("");
                    assert(stmt@ =~= var_name@ + " = "@ + left_val@ + " "@ + ssa_symbol(*op) + " "@
                        + right_val@);
                }
                push_line(statements, stmt);
                var_name
            },
            Expr::If(_, cond, then_br, else_br) => {
                let cond_val = Self::print_helper(&**cond, counter, statements, spelling);
                let var_name = Self::take_temp(counter);
                let head = join5("", &var_name, " = if ", &cond_val, " then");
                proof {
                    reveal_strlit("");
                    assert(head@ =~= var_name@ + " = if "@ + cond_val@ + " then"@);
                }
                push_line(statements, head);
                let then_val = Self::print_helper(&**then_br, counter, statements, spelling);
                let then_line = join3("  ", &then_val, "");
                proof {
                    assert(then_line@ =~= "  "@ + then_val@);
                }
                push_line(statements, then_line);
                push_line(statements, String::from_str("else"));
                let else_val = Self::print_helper(&**else_br, counter, statements, spelling);
                let else_line = join3("  ", &else_val, "");
                proof {
                    assert(else_line@ =~= "  "@ + else_val@);
                }
                push_line(statements, else_line);
                var_name
            },
            Expr::Loop(_, body) => {
                let var_name = Self::take_temp(counter);
                let head = join3("", &var_name, " = loop");
                proof {
                    reveal_strlit("");
                    assert(head@ =~= var_name@ + " = loop"@);
                }
                push_line(statements, head);
                let body_val = Self::print_helper(&**body, counter, statements, spelling);
                let body_line = join3("  ", &body_val, "");
                proof {
                    assert(body_line@ =~= "  "@ + body_val@);
                }
                push_line(statements, body_line);
                var_name
            },
            Expr::Break(_, val) => {
                let val_str = Self::print_helper(&**val, counter, statements, spelling);
                let r = join3("break ", &val_str, "");
                proof {
                    reveal_strlit("");
                    assert(r@ =~= "break "@ + val_str@);
                }
                r
            },
            Expr::Assign(_, var, e) => {
                let val = Self::print_helper(&**e, counter, statements, spelling);
                let stmt = join5("", var, " = ", &val, "");
                proof {
                    reveal_strlit("");
                    assert(stmt@ =~= var@ + " = "@ + val@);
                }
                push_line(statements, stmt);
                var.clone()
            },
            Expr::Block(_, exprs) => {
                let ghost trees = Expr::<T>::view_items(exprs@, exprs@.len());
                let ghost start = Linear {
                    counter: *old(counter),
                    statements: lines(old(statements)@),
                };
                proof {
                    Expr::<T>::view_items_index(exprs@, exprs@.len());
                }
                let mut last = String::new();
                let mut i: usize = 0;
                while i < exprs.len()
                    invariant
                        i <= exprs@.len(),
                        linearize_block(trees, start, i as nat, spelling@) == (
                            last@,
                            Linear { counter: *counter, statements: lines(statements@) },
                        ),
                    decreases exprs@.len() - i,
                {
                    last = Self::print_helper(&exprs[i], counter, statements, spelling);
                    i = i + 1;
                }
                last
            },
            Expr::Cast(_, typ, e) => {
                let val = Self::print_helper(&**e, counter, statements, spelling);
                let var_name = Self::take_temp(counter);
                let type_str = match typ {
                    Type::Float => "float",
                    Type::Int => "int",
                    Type::Bool => "bool",
                };
                let mut stmt = join5("", &var_name, " = (", &String::from_str(type_str), ") ");
                stmt.append(val.as_str());
                proof {
                    reveal_strlit("");
                    assert(stmt@ =~= var_name@ + " = ("@ + cast_name(*typ) + ") "@ + val@);
                }
                push_line(statements, stmt);
                var_name
            },
        }
    }
}

} // verus!
