//! The printed forms can be read in one way only.
//!
//! In the infix form and in the S-expression every operator application is
//! written with brackets of its own, and what follows an operand is a space or
//! a closing bracket, which no literal and no name contains. So the text of an
//! expression made of literals, input variables and operators shows where each
//! operand ends: two such expressions with the same text are the same tree,
//! up to literals that are spelled alike. That takes a spelling that can be
//! read: it writes every literal with the characters of a number and begins it
//! as a number begins. Literals that are left to their exact expansion and are
//! no NaNs are spelled like no other, and with them the tree is the same.

use super::print_backend::{
    filled, filled_concat, filled_one, infix_binary, infix_open, infix_sign, infix_unary, names_env,
    sexpr_binary, sexpr_open, sexpr_open2, sexpr_unary, spelled, InfixString, PieceView,
    SExprString,
};
use super::print_backend::shown;
use super::{closed, eval};
use crate::ast_expr::{Op1, Op2, Tree};
use crate::literal::{digit_at, expansion, literal_text, lowest, run, unsigned_text};
use crate::spelling::literal_spells_one;
use crate::text::{decimal, digit_char, is_digit, var_name, var_name_injective};
use vstd::prelude::*;

verus! {

/// The infix text of a tree made of literals, names and operators.
pub open spec fn infix(tree: Tree, spell: Map<u64, String>) -> Seq<char>
    decreases tree,
{
    match tree {
        Tree::Number(bits) => spelled(spell, bits),
        Tree::Id(name) => name,
        Tree::UnOp(op, e) => infix_open(op) + (infix(*e, spell) + ")"@),
        Tree::BinOp(op, l, r) => "("@ + (infix(*l, spell) + (infix_sign(op) + (infix(*r, spell) + ")"@))),
        _ => Seq::empty(),
    }
}

/// Whether two trees are the same but for literals, which need only be spelled
/// alike.
pub open spec fn same_reading(a: Tree, b: Tree, spell: Map<u64, String>) -> bool
    decreases a,
{
    match (a, b) {
        (Tree::Number(x), Tree::Number(y)) => spelled(spell, x) == spelled(spell, y),
        (Tree::Id(x), Tree::Id(y)) => x == y,
        (Tree::UnOp(f, x), Tree::UnOp(g, y)) => f == g && same_reading(*x, *y, spell),
        (Tree::BinOp(f, x1, x2), Tree::BinOp(g, y1, y2)) => f == g && same_reading(*x1, *y1, spell)
            && same_reading(*x2, *y2, spell),
        _ => false,
    }
}

/// A character that literals and names are made of.
pub open spec fn leaf_char(c: char) -> bool {
    is_digit(c) || c == '.' || c == '-' || c == 'N' || c == 'a' || c == 'i' || c == 'n' || c == 'f'
        || c == 'x' || c == '_'
}

/// A text that is not empty and made of such characters only.
pub open spec fn leaf_text(s: Seq<char>) -> bool {
    s.len() > 0 && forall|i: int| 0 <= i < s.len() ==> leaf_char(#[trigger] s[i])
}

/// How the text of a literal begins: with a digit, `N` or `i`, or with a minus
/// sign and then a digit or `i`.
pub open spec fn number_start(s: Seq<char>) -> bool {
    s.len() > 0 && (is_digit(s[0]) || s[0] == 'N' || s[0] == 'i' || (s[0] == '-' && s.len() > 1 && (
    is_digit(s[1]) || s[1] == 'i')))
}

/// What may follow an operand: nothing, a space or a closing bracket.
pub open spec fn delimited(s: Seq<char>) -> bool {
    s.len() == 0 || s[0] == ' ' || s[0] == ')'
}

proof fn digits_are_digits(d: nat)
    ensures
        is_digit(digit_char(d)),
{
}

proof fn decimal_is_digits(n: nat)
    ensures
        decimal(n).len() > 0,
        forall|i: int| 0 <= i < decimal(n).len() ==> is_digit(#[trigger] decimal(n)[i]),
    decreases n,
{
    if n >= 10 {
        decimal_is_digits(n / 10);
    }
}

/// A name of an input variable is made of leaf characters and begins with `x`.
pub proof fn name_is_leaf(j: nat)
    ensures
        leaf_text(var_name(j)),
        var_name(j)[0] == 'x',
{
    decimal_is_digits(j);
    assert forall|i: int| 0 <= i < var_name(j).len() implies leaf_char(#[trigger] var_name(j)[i]) by {
        if i >= 2 {
            assert(var_name(j)[i] == decimal(j)[i - 2]);
        }
    }
}

proof fn expansion_is_leaf(d: Seq<u8>, k: nat)
    ensures
        leaf_text(expansion(d, k)),
        is_digit(expansion(d, k)[0]),
{
    let whole = if d.len() > k {
        run(d, d.len() as int, k as int)
    } else {
        seq!['0']
    };
    assert(whole.len() > 0);
    assert forall|i: int| 0 <= i < whole.len() implies is_digit(#[trigger] whole[i]) by {
        if d.len() > k {
            digits_are_digits(digit_at(d, d.len() - 1 - i));
        }
    }
    if lowest(d) < k {
        let frac = run(d, k as int, lowest(d));
        assert forall|i: int| 0 <= i < frac.len() implies is_digit(#[trigger] frac[i]) by {
            digits_are_digits(digit_at(d, k - 1 - i));
        }
        let all = whole + seq!['.'] + frac;
        assert forall|i: int| 0 <= i < all.len() implies leaf_char(#[trigger] all[i]) by {
            if i < whole.len() {
                assert(all[i] == whole[i]);
            } else if i == whole.len() {
                assert(all[i] == '.');
            } else {
                assert(all[i] == frac[i - whole.len() - 1]);
            }
        }
        assert(all[0] == whole[0]);
    } else {
        assert(whole[0] == expansion(d, k)[0]);
    }
}

proof fn unsigned_is_leaf(mag: u64)
    ensures
        leaf_text(unsigned_text(mag)),
        is_digit(unsigned_text(mag)[0]) || unsigned_text(mag)[0] == 'i',
{
    reveal_strlit("inf");
    reveal_strlit("0");
    if mag == crate::double::INFINITY {
    } else if crate::literal::mantissa(mag) == 0 {
    } else if crate::literal::exponent(mag) >= 0 {
        expansion_is_leaf(
            crate::literal::digits(
                crate::literal::mantissa(mag) * crate::literal::power(
                    2,
                    crate::literal::exponent(mag) as nat,
                ),
            ),
            0,
        );
    } else {
        expansion_is_leaf(
            crate::literal::digits(
                crate::literal::mantissa(mag) * crate::literal::power(
                    5,
                    (-crate::literal::exponent(mag)) as nat,
                ),
            ),
            (-crate::literal::exponent(mag)) as nat,
        );
    }
}

/// The text of a literal is made of leaf characters and begins as a number
/// does.
pub proof fn literal_is_leaf(bits: u64)
    ensures
        leaf_text(literal_text(bits)),
        number_start(literal_text(bits)),
{
    reveal_strlit("NaN");
    reveal_strlit("-");
    if crate::double::spec_is_nan(bits) {
    } else if bits >= crate::double::SIGN {
        let u = unsigned_text(crate::double::spec_magnitude(bits));
        unsigned_is_leaf(crate::double::spec_magnitude(bits));
        let s = "-"@ + u;
        assert forall|i: int| 0 <= i < s.len() implies leaf_char(#[trigger] s[i]) by {
            if i >= 1 {
                assert(s[i] == u[i - 1]);
            }
        }
        assert(s[1] == u[0]);
    } else {
        unsigned_is_leaf(bits);
    }
}

/// Whether a spelling can be read: every text it gives is made of the
/// characters of a number and begins as a number begins.
pub open spec fn legible(spell: Map<u64, String>) -> bool {
    forall|bits: u64| #[trigger]
        spell.contains_key(bits) ==> leaf_text(spell[bits]@) && number_start(spell[bits]@)
}

/// Under a spelling that can be read every literal is written with the
/// characters of a number and begins as a number begins.
pub proof fn spelled_is_leaf(spell: Map<u64, String>, bits: u64)
    requires
        legible(spell),
    ensures
        leaf_text(spelled(spell, bits)),
        number_start(spelled(spell, bits)),
{
    if !spell.contains_key(bits) {
        literal_is_leaf(bits);
    }
}

/// Two leaf texts, each followed by a delimiter or by nothing, end at the same
/// place where the whole texts agree.
pub proof fn leaves_end_together(la: Seq<char>, lb: Seq<char>, ra: Seq<char>, rb: Seq<char>)
    requires
        leaf_text(la),
        leaf_text(lb),
        delimited(ra),
        delimited(rb),
        la + ra == lb + rb,
    ensures
        la == lb,
        ra == rb,
{
    let s = la + ra;
    let t = lb + rb;
    assert(s.len() == t.len());
    if la.len() < lb.len() {
        assert(s[la.len() as int] == ra[0]);
        assert(t[la.len() as int] == lb[la.len() as int]);
        assert(leaf_char(lb[la.len() as int]));
        assert(false);
    }
    if lb.len() < la.len() {
        assert(t[lb.len() as int] == rb[0]);
        assert(s[lb.len() as int] == la[lb.len() as int]);
        assert(leaf_char(la[lb.len() as int]));
        assert(false);
    }
    assert(la =~= s.take(la.len() as int));
    assert(lb =~= t.take(lb.len() as int));
    assert(ra =~= s.skip(la.len() as int));
    assert(rb =~= t.skip(lb.len() as int));
}

/// What follows a common beginning is the same where the whole texts agree.
pub proof fn cancel_prefix(p: Seq<char>, x: Seq<char>, y: Seq<char>)
    requires
        p + x == p + y,
    ensures
        x == y,
{
    assert(x =~= (p + x).skip(p.len() as int));
    assert(y =~= (p + y).skip(p.len() as int));
}

/// The first two characters of what is written before the operand of a unary
/// operator.
pub open spec fn unary_mark(op: Op1) -> (char, char) {
    match op {
        Op1::Neg => ('-', '('),
        Op1::Sin => ('s', 'i'),
        Op1::Cos => ('c', 'o'),
        Op1::Tan => ('t', 'a'),
        Op1::Exp => ('e', 'x'),
        Op1::Log => ('l', 'n'),
        Op1::Sqrt => ('s', 'q'),
        Op1::Abs => ('a', 'b'),
    }
}

proof fn unary_prefix_begins(op: Op1)
    ensures
        infix_open(op).len() >= 2,
        infix_open(op)[0] == unary_mark(op).0,
        infix_open(op)[1] == unary_mark(op).1,
{
    reveal_strlit("-(");
    reveal_strlit("sin(");
    reveal_strlit("cos(");
    reveal_strlit("tan(");
    reveal_strlit("exp(");
    reveal_strlit("ln(");
    reveal_strlit("sqrt(");
    reveal_strlit("abs(");
}

/// The character of a binary operator.
pub open spec fn binary_mark(op: Op2) -> char {
    match op {
        Op2::Add => '+',
        Op2::Sub => '-',
        Op2::Mul => '*',
        Op2::Div => '/',
        Op2::Pow => '^',
    }
}

proof fn binary_sign_is(op: Op2)
    ensures
        infix_sign(op) == seq![' ', binary_mark(op), ' '],
{
    reveal_strlit(" + ");
    reveal_strlit(" - ");
    reveal_strlit(" * ");
    reveal_strlit(" / ");
    reveal_strlit(" ^ ");
    assert(infix_sign(op) =~= seq![' ', binary_mark(op), ' ']);
}

/// How the text of a tree begins, whatever follows it.
proof fn beginning(tree: Tree, n: nat, tail: Seq<char>, spell: Map<u64, String>)
    requires
        legible(spell),
        closed(tree, n),
    ensures
        (infix(tree, spell) + tail).len() >= 1,
        tree is Number ==> number_start(infix(tree, spell)) && leaf_text(infix(tree, spell)),
        tree is Id ==> leaf_text(infix(tree, spell)) && infix(tree, spell)[0] == 'x',
        tree is Number || tree is Id ==> (infix(tree, spell) + tail)[0] == infix(tree, spell)[0],
        tree is Number && infix(tree, spell).len() > 1 ==> (infix(tree, spell) + tail)[1] == infix(tree, spell)[1],
        tree is UnOp ==> (infix(tree, spell) + tail).len() >= 2 && (infix(tree, spell) + tail)[0] == unary_mark(
            tree->UnOp_0,
        ).0 && (infix(tree, spell) + tail)[1] == unary_mark(tree->UnOp_0).1,
        tree is BinOp ==> (infix(tree, spell) + tail)[0] == '(',
{
    match tree {
        Tree::Number(bits) => {
            spelled_is_leaf(spell, bits);
        },
        Tree::Id(name) => {
            let j = choose|j: nat| j < n && name == var_name(j);
            name_is_leaf(j);
        },
        Tree::UnOp(op, e) => {
            unary_prefix_begins(op);
            let p = infix_open(op);
            let s = infix(tree, spell) + tail;
            assert(s[0] == p[0]);
            assert(s[1] == p[1]);
        },
        Tree::BinOp(op, l, r) => {
            reveal_strlit("(");
            let s = infix(tree, spell) + tail;
            assert(s[0] == "("@[0]);
        },
        _ => {},
    }
}

/// The kind of a node: 0 for a literal, 1 for a name, 2 for a unary and 3 for
/// a binary operator.
pub open spec fn kind(tree: Tree) -> int {
    match tree {
        Tree::Number(_) => 0,
        Tree::Id(_) => 1,
        Tree::UnOp(_, _) => 2,
        Tree::BinOp(_, _, _) => 3,
        _ => 4,
    }
}

/// Texts that agree are texts of nodes of the same kind: each kind begins in a
/// way of its own.
proof fn kinds_agree(a: Tree, b: Tree, n: nat, ra: Seq<char>, rb: Seq<char>, spell: Map<u64, String>)
    requires
        legible(spell),
        closed(a, n),
        closed(b, n),
        infix(a, spell) + ra == infix(b, spell) + rb,
    ensures
        kind(a) == kind(b),
{
    beginning(a, n, ra, spell);
    beginning(b, n, rb, spell);
    let s = infix(a, spell) + ra;
    let c0 = s[0];
    if a is BinOp || b is BinOp {
        // only a binary node begins with an opening bracket
        assert(c0 == '(');
    } else if a is Id || b is Id {
        // only a name begins with x
        assert(c0 == 'x');
    } else if a is UnOp && b is Number {
        if c0 == '-' {
            assert(s[1] == infix(b, spell)[1]);
        }
    } else if a is Number && b is UnOp {
        if c0 == '-' {
            assert(s[1] == infix(a, spell)[1]);
        }
    }
}

/// Two unary applications whose texts agree have the same operator, and the
/// texts of their operands agree with what follows.
proof fn unary_step(f: Op1, g: Op1, x: Seq<char>, y: Seq<char>)
    requires
        infix_open(f) + x == infix_open(g) + y,
    ensures
        f == g,
        x == y,
{
    unary_prefix_begins(f);
    unary_prefix_begins(g);
    let s = infix_open(f) + x;
    let t = infix_open(g) + y;
    assert(s[0] == infix_open(f)[0] && s[1] == infix_open(f)[1]);
    assert(t[0] == infix_open(g)[0] && t[1] == infix_open(g)[1]);
    assert(unary_mark(f) == unary_mark(g));
    cancel_prefix(infix_open(f), x, y);
}

/// Two operators between operands whose texts agree are the same, and what
/// follows them agrees.
proof fn sign_step(f: Op2, g: Op2, x: Seq<char>, y: Seq<char>)
    requires
        infix_sign(f) + x == infix_sign(g) + y,
    ensures
        f == g,
        x == y,
{
    binary_sign_is(f);
    binary_sign_is(g);
    let s = infix_sign(f) + x;
    let t = infix_sign(g) + y;
    assert(s[1] == binary_mark(f));
    assert(t[1] == binary_mark(g));
    cancel_prefix(infix_sign(f), x, y);
}

/// What follows an operand inside brackets is delimited.
proof fn tails_are_delimited(f: Op2, t: Seq<char>)
    ensures
        delimited(")"@ + t),
        delimited(infix_sign(f) + t),
{
    reveal_strlit(")");
    binary_sign_is(f);
    assert((")"@ + t)[0] == ')');
    assert((infix_sign(f) + t)[0] == ' ');
}

/// How the text of an application is put together.
proof fn put_together(tree: Tree, tail: Seq<char>, spell: Map<u64, String>)
    ensures
        tree matches Tree::UnOp(f, x) ==> infix(tree, spell) + tail == infix_open(f) + (infix(*x, spell) + (")"@
            + tail)),
        tree matches Tree::BinOp(f, x1, x2) ==> infix(tree, spell) + tail == "("@ + (infix(*x1, spell) + (
        infix_sign(f) + (infix(*x2, spell) + (")"@ + tail)))),
{
    match tree {
        Tree::UnOp(f, x) => {
            assert(infix(tree, spell) + tail =~= infix_open(f) + (infix(*x, spell) + (")"@ + tail)));
        },
        Tree::BinOp(f, x1, x2) => {
            assert(infix(tree, spell) + tail =~= "("@ + (infix(*x1, spell) + (infix_sign(f) + (infix(*x2, spell) + (")"@
                + tail)))));
        },
        _ => {},
    }
}

/// Two trees of literals, input variables and operators whose texts agree,
/// each followed by a delimiter or by nothing, read alike, and what follows
/// them is the same.
pub proof fn unique_reading(
    a: Tree,
    b: Tree,
    n: nat,
    ra: Seq<char>,
    rb: Seq<char>,
    spell: Map<u64, String>,
)
    requires
        legible(spell),
        closed(a, n),
        closed(b, n),
        delimited(ra),
        delimited(rb),
        infix(a, spell) + ra == infix(b, spell) + rb,
    ensures
        same_reading(a, b, spell),
        ra == rb,
    decreases a,
{
    kinds_agree(a, b, n, ra, rb, spell);
    match a {
        Tree::UnOp(f, x) => {
            let g = b->UnOp_0;
            let y = b->UnOp_1;
            let ta = ")"@ + ra;
            let tb = ")"@ + rb;
            put_together(a, ra, spell);
            put_together(b, rb, spell);
            unary_step(f, g, infix(*x, spell) + ta, infix(*y, spell) + tb);
            tails_are_delimited(Op2::Add, ra);
            tails_are_delimited(Op2::Add, rb);
            unique_reading(*x, *y, n, ta, tb, spell);
            cancel_prefix(")"@, ra, rb);
        },
        Tree::BinOp(f, x1, x2) => {
            let g = b->BinOp_0;
            let y1 = b->BinOp_1;
            let y2 = b->BinOp_2;
            let ta2 = ")"@ + ra;
            let tb2 = ")"@ + rb;
            let ta1 = infix_sign(f) + (infix(*x2, spell) + ta2);
            let tb1 = infix_sign(g) + (infix(*y2, spell) + tb2);
            put_together(a, ra, spell);
            put_together(b, rb, spell);
            cancel_prefix("("@, infix(*x1, spell) + ta1, infix(*y1, spell) + tb1);
            tails_are_delimited(f, infix(*x2, spell) + ta2);
            tails_are_delimited(g, infix(*y2, spell) + tb2);
            unique_reading(*x1, *y1, n, ta1, tb1, spell);
            sign_step(f, g, infix(*x2, spell) + ta2, infix(*y2, spell) + tb2);
            tails_are_delimited(f, ra);
            tails_are_delimited(g, rb);
            unique_reading(*x2, *y2, n, ta2, tb2, spell);
            cancel_prefix(")"@, ra, rb);
        },
        _ => {
            beginning(a, n, ra, spell);
            beginning(b, n, rb, spell);
            leaves_end_together(infix(a, spell), infix(b, spell), ra, rb);
        },
    }
}

/// The environment of the printers binds every input variable to its own name.
pub proof fn names_env_binds(n: nat)
    ensures
        forall|j: nat|
            j < n ==> names_env(n).contains_key(#[trigger] var_name(j)) && names_env(n)[var_name(
                j,
            )] == seq![PieceView::Text(var_name(j))],
    decreases n,
{
    if n > 0 {
        let m = (n - 1) as nat;
        names_env_binds(m);
        assert forall|j: nat| j < n implies names_env(n).contains_key(#[trigger] var_name(j))
            && names_env(n)[var_name(j)] == seq![PieceView::Text(var_name(j))] by {
            if j < m {
                if var_name(j) == var_name(m) {
                    var_name_injective(j, m);
                }
            }
        }
    }
}

/// The text of an application: what is written before, between and behind the
/// operands, and the texts of the operands.
proof fn filled_around(
    open: Seq<char>,
    x: Seq<PieceView>,
    close: Seq<char>,
    spell: Map<u64, String>,
)
    ensures
        filled(seq![PieceView::Text(open)] + x + seq![PieceView::Text(close)], spell) == open + (
        filled(x, spell) + close),
{
    let o = seq![PieceView::Text(open)];
    let c = seq![PieceView::Text(close)];
    filled_one(PieceView::Text(open), spell);
    filled_one(PieceView::Text(close), spell);
    filled_concat(o, x, spell);
    filled_concat(o + x, c, spell);
    assert(open + filled(x, spell) + close =~= open + (filled(x, spell) + close));
}

proof fn filled_around2(
    open: Seq<char>,
    x: Seq<PieceView>,
    middle: Seq<char>,
    y: Seq<PieceView>,
    close: Seq<char>,
    spell: Map<u64, String>,
)
    ensures
        filled(
            seq![PieceView::Text(open)] + x + seq![PieceView::Text(middle)] + y + seq![
                PieceView::Text(close),
            ],
            spell,
        ) == open + (filled(x, spell) + (middle + (filled(y, spell) + close))),
{
    let o = seq![PieceView::Text(open)];
    let m = seq![PieceView::Text(middle)];
    let c = seq![PieceView::Text(close)];
    filled_one(PieceView::Text(open), spell);
    filled_one(PieceView::Text(middle), spell);
    filled_one(PieceView::Text(close), spell);
    filled_concat(o, x, spell);
    filled_concat(o + x, m, spell);
    filled_concat(o + x + m, y, spell);
    filled_concat(o + x + m + y, c, spell);
    assert(open + filled(x, spell) + middle + filled(y, spell) + close =~= open + (filled(x, spell)
        + (middle + (filled(y, spell) + close))));
}

/// The infix printer writes `infix` for a tree of literals, input variables
/// and operators.
pub proof fn printer_writes_infix(tree: Tree, n: nat, spell: Map<u64, String>)
    requires
        closed(tree, n),
    ensures
        eval::<InfixString>(tree, names_env(n)) is Ok,
        filled(eval::<InfixString>(tree, names_env(n))->Ok_0, spell) == infix(tree, spell),
    decreases tree,
{
    match tree {
        Tree::Number(bits) => {
            filled_one(PieceView::Literal(bits), spell);
        },
        Tree::Id(name) => {
            names_env_binds(n);
            let j = choose|j: nat| j < n && name == var_name(j);
            assert(names_env(n).contains_key(var_name(j)));
            filled_one(PieceView::Text(name), spell);
        },
        Tree::UnOp(op, e) => {
            printer_writes_infix(*e, n, spell);
            let x = eval::<InfixString>(*e, names_env(n))->Ok_0;
            assert(eval::<InfixString>(tree, names_env(n))->Ok_0 == infix_unary(op, x));
            filled_around(infix_open(op), x, ")"@, spell);
        },
        Tree::BinOp(op, l, r) => {
            printer_writes_infix(*l, n, spell);
            printer_writes_infix(*r, n, spell);
            let x = eval::<InfixString>(*l, names_env(n))->Ok_0;
            let y = eval::<InfixString>(*r, names_env(n))->Ok_0;
            assert(eval::<InfixString>(tree, names_env(n))->Ok_0 == infix_binary(op, x, y));
            filled_around2("("@, x, infix_sign(op), y, ")"@, spell);
        },
        _ => {},
    }
}

/// No text of the infix printer can be read in two ways: under a spelling that
/// can be read, two trees of literals, input variables and operators that are
/// printed alike have the same shape, the same operators and the same names,
/// and literals that are spelled alike.
pub proof fn infix_is_unambiguous(a: Tree, b: Tree, n: nat, spell: Map<u64, String>)
    requires
        closed(a, n),
        closed(b, n),
        legible(spell),
        shown(eval::<InfixString>(a, names_env(n)), spell) == shown(
            eval::<InfixString>(b, names_env(n)),
            spell,
        ),
    ensures
        same_reading(a, b, spell),
{
    printer_writes_infix(a, n, spell);
    printer_writes_infix(b, n, spell);
    assert(infix(a, spell) + Seq::<char>::empty() =~= infix(a, spell));
    assert(infix(b, spell) + Seq::<char>::empty() =~= infix(b, spell));
    unique_reading(a, b, n, Seq::empty(), Seq::empty(), spell);
}

/// Whether every literal of the tree is left to its exact expansion and is no
/// NaN.
pub open spec fn exactly_written(tree: Tree, spell: Map<u64, String>) -> bool
    decreases tree,
{
    match tree {
        Tree::Number(bits) => !spell.contains_key(bits) && !crate::double::spec_is_nan(bits),
        Tree::UnOp(_, e) => exactly_written(*e, spell),
        Tree::BinOp(_, l, r) => exactly_written(*l, spell) && exactly_written(*r, spell),
        _ => true,
    }
}

/// Trees that read alike and whose literals are left to their exact expansion
/// are the same tree: an expansion belongs to one double only.
pub proof fn same_reading_is_same_tree(a: Tree, b: Tree, spell: Map<u64, String>)
    requires
        same_reading(a, b, spell),
        exactly_written(a, spell),
        exactly_written(b, spell),
    ensures
        a == b,
    decreases a,
{
    match (a, b) {
        (Tree::Number(x), Tree::Number(y)) => {
            literal_spells_one(x, y);
        },
        (Tree::UnOp(_, x), Tree::UnOp(_, y)) => {
            same_reading_is_same_tree(*x, *y, spell);
        },
        (Tree::BinOp(_, x1, x2), Tree::BinOp(_, y1, y2)) => {
            same_reading_is_same_tree(*x1, *y1, spell);
            same_reading_is_same_tree(*x2, *y2, spell);
        },
        _ => {},
    }
}

/// The infix text determines the tree: two trees of literals, input variables
/// and operators, whose literals are left to their exact expansion and are no
/// NaNs, are the same tree where they are printed alike.
pub proof fn infix_determines_tree(a: Tree, b: Tree, n: nat, spell: Map<u64, String>)
    requires
        closed(a, n),
        closed(b, n),
        legible(spell),
        exactly_written(a, spell),
        exactly_written(b, spell),
        shown(eval::<InfixString>(a, names_env(n)), spell) == shown(
            eval::<InfixString>(b, names_env(n)),
            spell,
        ),
    ensures
        a == b,
{
    infix_is_unambiguous(a, b, n, spell);
    same_reading_is_same_tree(a, b, spell);
}

/// What an S-expression writes before the operands of an operator.
pub open spec fn sexpr_head(tree: Tree) -> Seq<char> {
    match tree {
        Tree::UnOp(Op1::Neg, _) => "(neg "@,
        Tree::UnOp(Op1::Sin, _) => "(sin "@,
        Tree::UnOp(Op1::Cos, _) => "(cos "@,
        Tree::UnOp(Op1::Tan, _) => "(tan "@,
        Tree::UnOp(Op1::Exp, _) => "(exp "@,
        Tree::UnOp(Op1::Log, _) => "(log "@,
        Tree::UnOp(Op1::Sqrt, _) => "(sqrt "@,
        Tree::UnOp(Op1::Abs, _) => "(abs "@,
        Tree::BinOp(Op2::Add, _, _) => "(+ "@,
        Tree::BinOp(Op2::Sub, _, _) => "(- "@,
        Tree::BinOp(Op2::Mul, _, _) => "(* "@,
        Tree::BinOp(Op2::Div, _, _) => "(/ "@,
        Tree::BinOp(Op2::Pow, _, _) => "(pow "@,
        _ => Seq::empty(),
    }
}

/// The two characters behind the opening bracket of an S-expression.
pub open spec fn sexpr_mark(tree: Tree) -> (char, char) {
    match tree {
        Tree::UnOp(Op1::Neg, _) => ('n', 'e'),
        Tree::UnOp(Op1::Sin, _) => ('s', 'i'),
        Tree::UnOp(Op1::Cos, _) => ('c', 'o'),
        Tree::UnOp(Op1::Tan, _) => ('t', 'a'),
        Tree::UnOp(Op1::Exp, _) => ('e', 'x'),
        Tree::UnOp(Op1::Log, _) => ('l', 'o'),
        Tree::UnOp(Op1::Sqrt, _) => ('s', 'q'),
        Tree::UnOp(Op1::Abs, _) => ('a', 'b'),
        Tree::BinOp(Op2::Add, _, _) => ('+', ' '),
        Tree::BinOp(Op2::Sub, _, _) => ('-', ' '),
        Tree::BinOp(Op2::Mul, _, _) => ('*', ' '),
        Tree::BinOp(Op2::Div, _, _) => ('/', ' '),
        Tree::BinOp(Op2::Pow, _, _) => ('p', 'o'),
        _ => (' ', ' '),
    }
}

/// The S-expression of a tree made of literals, names and operators.
pub open spec fn sexpr(tree: Tree, spell: Map<u64, String>) -> Seq<char>
    decreases tree,
{
    match tree {
        Tree::Number(bits) => spelled(spell, bits),
        Tree::Id(name) => name,
        Tree::UnOp(_, e) => sexpr_head(tree) + (sexpr(*e, spell) + ")"@),
        Tree::BinOp(_, l, r) => sexpr_head(tree) + (sexpr(*l, spell) + (" "@ + (sexpr(*r, spell) + ")"@))),
        _ => Seq::empty(),
    }
}

proof fn sexpr_head_begins(tree: Tree)
    requires
        tree is UnOp || tree is BinOp,
    ensures
        sexpr_head(tree).len() >= 3,
        sexpr_head(tree)[0] == '(',
        sexpr_head(tree)[1] == sexpr_mark(tree).0,
        sexpr_head(tree)[2] == sexpr_mark(tree).1,
{
    reveal_strlit("(neg ");
    reveal_strlit("(sin ");
    reveal_strlit("(cos ");
    reveal_strlit("(tan ");
    reveal_strlit("(exp ");
    reveal_strlit("(log ");
    reveal_strlit("(sqrt ");
    reveal_strlit("(abs ");
    reveal_strlit("(+ ");
    reveal_strlit("(- ");
    reveal_strlit("(* ");
    reveal_strlit("(/ ");
    reveal_strlit("(pow ");
}

/// Operators with the same two characters behind the bracket are the same
/// operator, and written alike.
proof fn sexpr_marks_tell(a: Tree, b: Tree)
    requires
        a is UnOp || a is BinOp,
        b is UnOp || b is BinOp,
        sexpr_mark(a) == sexpr_mark(b),
    ensures
        a is UnOp <==> b is UnOp,
        a is UnOp ==> a->UnOp_0 == b->UnOp_0,
        a is BinOp ==> a->BinOp_0 == b->BinOp_0,
        sexpr_head(a) == sexpr_head(b),
{
}

/// How the S-expression of a tree begins, whatever follows it.
proof fn sexpr_beginning(tree: Tree, n: nat, tail: Seq<char>, spell: Map<u64, String>)
    requires
        legible(spell),
        closed(tree, n),
    ensures
        (sexpr(tree, spell) + tail).len() >= 1,
        tree is Number || tree is Id ==> leaf_text(sexpr(tree, spell)) && (sexpr(tree, spell) + tail)[0] == sexpr(tree, spell)[0],
        tree is Number ==> number_start(sexpr(tree, spell)),
        tree is Id ==> sexpr(tree, spell)[0] == 'x',
        tree is UnOp || tree is BinOp ==> (sexpr(tree, spell) + tail).len() >= 3 && (sexpr(tree, spell)
            + tail)[0] == '(' && (sexpr(tree, spell) + tail)[1] == sexpr_mark(tree).0 && (sexpr(tree, spell)
            + tail)[2] == sexpr_mark(tree).1,
{
    match tree {
        Tree::Number(bits) => {
            spelled_is_leaf(spell, bits);
        },
        Tree::Id(name) => {
            let j = choose|j: nat| j < n && name == var_name(j);
            name_is_leaf(j);
        },
        Tree::UnOp(_, _) | Tree::BinOp(_, _, _) => {
            sexpr_head_begins(tree);
            let h = sexpr_head(tree);
            let s = sexpr(tree, spell) + tail;
            assert(s[0] == h[0] && s[1] == h[1] && s[2] == h[2]);
        },
        _ => {},
    }
}

/// How the S-expression of an application is put together.
proof fn sexpr_put_together(tree: Tree, tail: Seq<char>, spell: Map<u64, String>)
    ensures
        tree matches Tree::UnOp(_, x) ==> sexpr(tree, spell) + tail == sexpr_head(tree) + (sexpr(*x, spell) + (
        ")"@ + tail)),
        tree matches Tree::BinOp(_, x1, x2) ==> sexpr(tree, spell) + tail == sexpr_head(tree) + (sexpr(*x1, spell) + (" "@ + (sexpr(*x2, spell) + (")"@ + tail)))),
{
    match tree {
        Tree::UnOp(_, x) => {
            assert(sexpr(tree, spell) + tail =~= sexpr_head(tree) + (sexpr(*x, spell) + (")"@ + tail)));
        },
        Tree::BinOp(_, x1, x2) => {
            assert(sexpr(tree, spell) + tail =~= sexpr_head(tree) + (sexpr(*x1, spell) + (" "@ + (sexpr(*x2, spell) + (
            ")"@ + tail)))));
        },
        _ => {},
    }
}

/// What follows an operand of an S-expression is delimited.
proof fn sexpr_tails_are_delimited(t: Seq<char>)
    ensures
        delimited(")"@ + t),
        delimited(" "@ + t),
{
    reveal_strlit(")");
    reveal_strlit(" ");
    assert((")"@ + t)[0] == ')');
    assert((" "@ + t)[0] == ' ');
}

/// Two trees of literals, input variables and operators whose S-expressions
/// agree, each followed by a delimiter or by nothing, read alike, and what
/// follows them is the same.
pub proof fn unique_sexpr(
    a: Tree,
    b: Tree,
    n: nat,
    ra: Seq<char>,
    rb: Seq<char>,
    spell: Map<u64, String>,
)
    requires
        legible(spell),
        closed(a, n),
        closed(b, n),
        delimited(ra),
        delimited(rb),
        sexpr(a, spell) + ra == sexpr(b, spell) + rb,
    ensures
        same_reading(a, b, spell),
        ra == rb,
    decreases a,
{
    sexpr_beginning(a, n, ra, spell);
    sexpr_beginning(b, n, rb, spell);
    let s = sexpr(a, spell) + ra;
    // only an application begins with a bracket, and only a name with x
    assert(s[0] == '(' <==> (a is UnOp || a is BinOp));
    assert(s[0] == '(' <==> (b is UnOp || b is BinOp));
    if a is UnOp || a is BinOp {
        sexpr_marks_tell(a, b);
        sexpr_put_together(a, ra, spell);
        sexpr_put_together(b, rb, spell);
        let ta = ")"@ + ra;
        let tb = ")"@ + rb;
        sexpr_tails_are_delimited(ra);
        sexpr_tails_are_delimited(rb);
        match a {
            Tree::UnOp(_, x) => {
                let y = b->UnOp_1;
                cancel_prefix(sexpr_head(a), sexpr(*x, spell) + ta, sexpr(*y, spell) + tb);
                unique_sexpr(*x, *y, n, ta, tb, spell);
            },
            Tree::BinOp(_, x1, x2) => {
                let y1 = b->BinOp_1;
                let y2 = b->BinOp_2;
                let ta1 = " "@ + (sexpr(*x2, spell) + ta);
                let tb1 = " "@ + (sexpr(*y2, spell) + tb);
                sexpr_tails_are_delimited(sexpr(*x2, spell) + ta);
                sexpr_tails_are_delimited(sexpr(*y2, spell) + tb);
                cancel_prefix(sexpr_head(a), sexpr(*x1, spell) + ta1, sexpr(*y1, spell) + tb1);
                unique_sexpr(*x1, *y1, n, ta1, tb1, spell);
                cancel_prefix(" "@, sexpr(*x2, spell) + ta, sexpr(*y2, spell) + tb);
                unique_sexpr(*x2, *y2, n, ta, tb, spell);
            },
            _ => {},
        }
        cancel_prefix(")"@, ra, rb);
    } else {
        leaves_end_together(sexpr(a, spell), sexpr(b, spell), ra, rb);
    }
}

/// The S-expression printer writes `sexpr` for a tree of literals, input
/// variables and operators.
pub proof fn printer_writes_sexpr(tree: Tree, n: nat, spell: Map<u64, String>)
    requires
        closed(tree, n),
    ensures
        eval::<SExprString>(tree, names_env(n)) is Ok,
        filled(eval::<SExprString>(tree, names_env(n))->Ok_0, spell) == sexpr(tree, spell),
    decreases tree,
{
    match tree {
        Tree::Number(bits) => {
            filled_one(PieceView::Literal(bits), spell);
        },
        Tree::Id(name) => {
            names_env_binds(n);
            let j = choose|j: nat| j < n && name == var_name(j);
            assert(names_env(n).contains_key(var_name(j)));
            filled_one(PieceView::Text(name), spell);
        },
        Tree::UnOp(op, e) => {
            printer_writes_sexpr(*e, n, spell);
            let x = eval::<SExprString>(*e, names_env(n))->Ok_0;
            assert(eval::<SExprString>(tree, names_env(n))->Ok_0 == sexpr_unary(op, x));
            filled_around(sexpr_open(op), x, ")"@, spell);
            assert(sexpr_open(op) == sexpr_head(tree));
        },
        Tree::BinOp(op, l, r) => {
            printer_writes_sexpr(*l, n, spell);
            printer_writes_sexpr(*r, n, spell);
            let x = eval::<SExprString>(*l, names_env(n))->Ok_0;
            let y = eval::<SExprString>(*r, names_env(n))->Ok_0;
            assert(eval::<SExprString>(tree, names_env(n))->Ok_0 == sexpr_binary(op, x, y));
            filled_around2(sexpr_open2(op), x, " "@, y, ")"@, spell);
            assert(sexpr_open2(op) == sexpr_head(tree));
        },
        _ => {},
    }
}

/// The S-expression determines the tree: two trees of literals, input
/// variables and operators, whose literals are left to their exact expansion
/// and are no NaNs, are the same tree where they are printed alike.
pub proof fn sexpr_determines_tree(a: Tree, b: Tree, n: nat, spell: Map<u64, String>)
    requires
        closed(a, n),
        closed(b, n),
        legible(spell),
        exactly_written(a, spell),
        exactly_written(b, spell),
        shown(eval::<SExprString>(a, names_env(n)), spell) == shown(
            eval::<SExprString>(b, names_env(n)),
            spell,
        ),
    ensures
        a == b,
{
    printer_writes_sexpr(a, n, spell);
    printer_writes_sexpr(b, n, spell);
    assert(sexpr(a, spell) + Seq::<char>::empty() =~= sexpr(a, spell));
    assert(sexpr(b, spell) + Seq::<char>::empty() =~= sexpr(b, spell));
    unique_sexpr(a, b, n, Seq::empty(), Seq::empty(), spell);
    same_reading_is_same_tree(a, b, spell);
}

} // verus!
