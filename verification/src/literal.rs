//! The decimal text of a double.
//!
//! Every finite double is an integer times a power of two, so it has a finite
//! decimal expansion. The text written here is that expansion in full: it
//! denotes the double exactly, and reading it back gives the same double.

use crate::double;
use crate::text::{digit_char, digit_str};
use vstd::prelude::*;

verus! {

/// Two to the power 52: the weight of the hidden bit of a normal double.
pub const HIDDEN: u64 = 0x10_0000_0000_0000;

/// `base` to the power `e`.
pub open spec fn power(base: nat, e: nat) -> nat
    decreases e,
{
    if e == 0 {
        1
    } else {
        base * power(base, (e - 1) as nat)
    }
}

/// The integer `m` of a finite magnitude `m * 2^e`.
pub open spec fn mantissa(mag: u64) -> nat {
    if mag / HIDDEN == 0 {
        (mag % HIDDEN) as nat
    } else {
        (mag % HIDDEN + HIDDEN) as nat
    }
}

/// The exponent `e` of a finite magnitude `m * 2^e`.
pub open spec fn exponent(mag: u64) -> int {
    if mag / HIDDEN == 0 {
        -1074
    } else {
        mag / HIDDEN - 1075
    }
}

/// The decimal digits of `n`, the least significant first; none for 0.
pub open spec fn digits(n: nat) -> Seq<u8>
    decreases n,
{
    if n == 0 {
        Seq::empty()
    } else {
        seq![(n % 10) as u8] + digits(n / 10)
    }
}

/// The digit of weight `10^i`, which is 0 beyond the digits that are written.
pub open spec fn digit_at(d: Seq<u8>, i: int) -> nat {
    if 0 <= i < d.len() {
        d[i] as nat
    } else {
        0
    }
}

/// The characters of the digits of weight `10^(hi-1)` down to `10^lo`.
pub open spec fn run(d: Seq<u8>, hi: int, lo: int) -> Seq<char> {
    Seq::new((hi - lo) as nat, |i: int| digit_char(digit_at(d, hi - 1 - i)))
}

/// The position of the lowest digit that is not 0; the length where all are 0.
pub open spec fn lowest(d: Seq<u8>) -> int
    decreases d.len(),
{
    if d.len() == 0 || d[0] != 0 {
        0
    } else {
        1 + lowest(d.skip(1))
    }
}

/// The text of the number with digits `d` divided by `10^k`: the digits from
/// weight `10^k` upwards (a single 0 where there are none), and after a point
/// those below, down to the last one that is not 0.
pub open spec fn expansion(d: Seq<u8>, k: nat) -> Seq<char> {
    let whole = if d.len() > k {
        run(d, d.len() as int, k as int)
    } else {
        seq!['0']
    };
    if lowest(d) >= k {
        whole
    } else {
        whole + seq!['.'] + run(d, k as int, lowest(d))
    }
}

/// The text of a magnitude.
pub open spec fn unsigned_text(mag: u64) -> Seq<char> {
    if mag == double::INFINITY {
        "inf"@
    } else if mantissa(mag) == 0 {
        "0"@
    } else if exponent(mag) >= 0 {
        expansion(digits(mantissa(mag) * power(2, exponent(mag) as nat)), 0)
    } else {
        expansion(
            digits(mantissa(mag) * power(5, (-exponent(mag)) as nat)),
            (-exponent(mag)) as nat,
        )
    }
}

/// The text of a double: `NaN`, or a minus sign under a sign bit and then `inf`
/// or the exact decimal expansion of the magnitude.
///
/// The expansion is exact because `m * 2^e` with `e < 0` equals
/// `m * 5^(-e) / 10^(-e)`.
pub open spec fn literal_text(bits: u64) -> Seq<char> {
    if double::spec_is_nan(bits) {
        "NaN"@
    } else if bits >= double::SIGN {
        "-"@ + unsigned_text(double::spec_magnitude(bits))
    } else {
        unsigned_text(bits)
    }
}

/// The number that decimal digits spell, the least significant first.
pub open spec fn number(d: Seq<u8>) -> nat
    decreases d.len(),
{
    if d.len() == 0 {
        0
    } else {
        d[0] as nat + 10 * number(d.skip(1))
    }
}

/// Whether every entry is a decimal digit.
pub open spec fn all_decimal(d: Seq<u8>) -> bool {
    forall|i: int| 0 <= i < d.len() ==> d[i] < 10
}

/// Decimal digits without a leading zero.
pub open spec fn canonical(d: Seq<u8>) -> bool {
    all_decimal(d) && (d.len() > 0 ==> d[d.len() - 1] != 0)
}

/// Digits without a leading zero are the digits of the number they spell.
pub proof fn canonical_digits(d: Seq<u8>)
    requires
        canonical(d),
    ensures
        digits(number(d)) == d,
        d.len() > 0 ==> number(d) > 0,
    decreases d.len(),
{
    if d.len() > 0 {
        let rest = d.skip(1);
        canonical_digits(rest);
        assert(number(d) == d[0] as nat + 10 * number(rest));
        if rest.len() == 0 {
            assert(d[0] != 0);
        }
        let n = number(d);
        assert(n % 10 == d[0] as nat);
        assert(n / 10 == number(rest));
        assert(digits(n) =~= seq![(n % 10) as u8] + digits(n / 10));
        assert(d =~= seq![d[0]] + rest);
    }
}

/// Multiplies the number spelled by the digits from position `i` upwards by
/// `factor` and adds `carry`; the digits below `i` stay.
fn scale_from(d: &mut Vec<u8>, i: usize, factor: u64, carry: u64)
    requires
        i <= old(d)@.len(),
        all_decimal(old(d)@),
        1 <= factor < 0x100_0000_0000_0000,
        carry <= factor,
    ensures
        all_decimal(final(d)@),
        final(d)@.len() >= old(d)@.len(),
        final(d)@.take(i as int) == old(d)@.take(i as int),
        number(final(d)@.skip(i as int)) == factor * number(old(d)@.skip(i as int)) + carry,
        old(d)@.len() == i && carry == 0 ==> final(d)@ == old(d)@,
        (old(d)@.len() > i && old(d)@[old(d)@.len() - 1] != 0) || (old(d)@.len() == i && carry > 0)
            ==> final(d)@.len() > 0 && final(d)@[final(d)@.len() - 1] != 0,
    decreases old(d)@.len() - i, carry,
{
    let ghost before = d@;
    if i < d.len() {
        let digit: u64 = d[i] as u64;
        assert(digit <= factor * digit <= factor * 9) by (nonlinear_arith)
            requires
                digit <= 9,
                factor >= 1,
        ;
        let t: u64 = factor * digit + carry;
        d.set(i, (t % 10) as u8);
        let ghost middle = d@;
        scale_from(d, i + 1, factor, t / 10);
        proof {
            let x = number(before.skip(i as int + 1));
            assert(before.skip(i as int).skip(1) =~= before.skip(i as int + 1));
            assert(middle.skip(i as int + 1) =~= before.skip(i as int + 1));
            assert(d@.skip(i as int).skip(1) =~= d@.skip(i as int + 1));
            assert(d@.skip(i as int)[0] == d@.take(i as int + 1)[i as int]);
            assert(middle.take(i as int + 1)[i as int] == (t % 10) as u8);
            assert(number(d@.skip(i as int)) == (t % 10) + 10 * (factor * x + t / 10));
            assert(factor * (before[i as int] as nat + 10 * x) == factor * (before[i as int] as nat)
                + 10 * (factor * x)) by (nonlinear_arith);
            assert(d@.take(i as int) =~= d@.take(i as int + 1).take(i as int));
            assert(before.take(i as int) =~= middle.take(i as int + 1).take(i as int));
        }
    } else if carry > 0 {
        d.push((carry % 10) as u8);
        let ghost middle = d@;
        let length = d.len();
        assert(length == i + 1);
        scale_from(d, i + 1, factor, carry / 10);
        proof {
            assert(before.skip(i as int) =~= Seq::<u8>::empty());
            assert(middle.skip(i as int + 1) =~= Seq::<u8>::empty());
            assert(d@.skip(i as int).skip(1) =~= d@.skip(i as int + 1));
            assert(d@.skip(i as int)[0] == d@.take(i as int + 1)[i as int]);
            assert(middle.take(i as int + 1)[i as int] == (carry % 10) as u8);
            assert(d@.take(i as int) =~= d@.take(i as int + 1).take(i as int));
            assert(before.take(i as int) =~= middle.take(i as int + 1).take(i as int));
            assert(factor * 0 == 0);
        }
    } else {
        proof {
            assert(before.skip(i as int) =~= Seq::<u8>::empty());
            assert(factor * 0 == 0);
        }
    }
}

/// Multiplies the number that the digits spell by `factor`.
fn scale(d: &mut Vec<u8>, factor: u64)
    requires
        canonical(old(d)@),
        old(d)@.len() > 0,
        1 <= factor < 0x100_0000_0000_0000,
    ensures
        canonical(final(d)@),
        final(d)@.len() > 0,
        number(final(d)@) == factor * number(old(d)@),
{
    scale_from(d, 0, factor, 0);
    assert(d@.skip(0) =~= d@);
    assert(old(d)@.skip(0) =~= old(d)@);
}

/// The digits of `m * base^e`.
fn power_digits(m: u64, base: u64, e: u64) -> (d: Vec<u8>)
    requires
        1 <= m < 0x100_0000_0000_0000,
        2 <= base <= 5,
    ensures
        d@ == digits(m as nat * power(base as nat, e as nat)),
        d@.len() > 0,
        canonical(d@),
{
    let mut d: Vec<u8> = Vec::new();
    d.push(1);
    assert(number(d@) == 1) by {
        assert(d@.skip(1) =~= Seq::<u8>::empty());
        assert(number(d@.skip(1)) == 0);
    }
    scale(&mut d, m);
    let mut i: u64 = 0;
    while i < e
        invariant
            i <= e,
            canonical(d@),
            d@.len() > 0,
            2 <= base <= 5,
            number(d@) == m as nat * power(base as nat, i as nat),
        decreases e - i,
    {
        let ghost before = number(d@);
        scale(&mut d, base);
        proof {
            let p = power(base as nat, i as nat);
            assert(power(base as nat, (i + 1) as nat) == base as nat * p);
            assert(base as nat * (m as nat * p) == m as nat * (base as nat * p))
                by (nonlinear_arith);
        }
        i = i + 1;
    }
    proof {
        canonical_digits(d@);
    }
    d
}

/// A position with only zeros below it and a digit other than 0 at it is the
/// lowest such position.
pub proof fn lowest_found(d: Seq<u8>, z: int)
    requires
        0 <= z <= d.len(),
        forall|j: int| 0 <= j < z ==> d[j] == 0,
        z < d.len() ==> d[z] != 0,
    ensures
        lowest(d) == z,
    decreases z,
{
    if z > 0 {
        lowest_found(d.skip(1), z - 1);
    }
}

/// Appends the characters of the digits of weight `10^(hi-1)` down to `10^lo`.
fn push_run(out: &mut String, d: &Vec<u8>, hi: usize, lo: usize)
    requires
        all_decimal(d@),
        lo <= hi,
    ensures
        final(out)@ == old(out)@ + run(d@, hi as int, lo as int),
{
    let mut i: usize = hi;
    assert(old(out)@ + run(d@, hi as int, hi as int) =~= old(out)@);
    while i > lo
        invariant
            lo <= i <= hi,
            all_decimal(d@),
            out@ == old(out)@ + run(d@, hi as int, i as int),
        decreases i,
    {
        i = i - 1;
        let digit: u8 = if i < d.len() {
            d[i]
        } else {
            0
        };
        let ghost before = out@;
        out.append(digit_str(digit));
        assert(out@ =~= old(out)@ + run(d@, hi as int, i as int)) by {
            assert(run(d@, hi as int, i as int) =~= run(d@, hi as int, i as int + 1).push(
                digit_char(digit_at(d@, i as int)),
            ));
        }
    }
}

/// Appends the text of the number with digits `d` divided by `10^k`.
fn push_expansion(out: &mut String, d: &Vec<u8>, k: usize)
    requires
        all_decimal(d@),
    ensures
        final(out)@ == old(out)@ + expansion(d@, k as nat),
{
    proof {
        reveal_strlit("0");
        reveal_strlit(".");
    }
    if d.len() > k {
        push_run(out, d, d.len(), k);
    } else {
        out.append("0");
    }
    let ghost whole = out@;
    let mut z: usize = 0;
    while z < d.len() && d[z] == 0
        invariant
            z <= d@.len(),
            forall|j: int| 0 <= j < z ==> d@[j] == 0,
        decreases d@.len() - z,
    {
        z = z + 1;
    }
    proof {
        lowest_found(d@, z as int);
    }
    if z < k {
        out.append(".");
        push_run(out, d, k, z);
        assert(out@ =~= old(out)@ + expansion(d@, k as nat));
    } else {
        assert(out@ =~= old(out)@ + expansion(d@, k as nat));
    }
}

/// The text of the double with the given bits.
pub fn render(bits: u64) -> (s: String)
    ensures
        s@ == literal_text(bits),
{
    let mag = double::magnitude(bits);
    if mag > double::INFINITY {
        return String::from_str("NaN");
    }
    let mut out = String::new();
    if bits >= double::SIGN {
        out.append("-");
    }
    let ghost sign = out@;
    assert(sign + unsigned_text(mag) =~= literal_text(bits));
    if mag == double::INFINITY {
        out.append("inf");
        return out;
    }
    let biased: u64 = mag / HIDDEN;
    let fraction: u64 = mag % HIDDEN;
    let m: u64 = if biased == 0 {
        fraction
    } else {
        fraction + HIDDEN
    };
    if m == 0 {
        out.append("0");
        return out;
    }
    if biased >= 1075 {
        let d = power_digits(m, 2, biased - 1075);
        push_expansion(&mut out, &d, 0);
    } else {
        let k: u64 = if biased == 0 {
            1074
        } else {
            1075 - biased
        };
        let d = power_digits(m, 5, k);
        push_expansion(&mut out, &d, k as usize);
    }
    out
}

} // verus!
