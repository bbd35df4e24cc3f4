//! The text of a double spells one double only.
//!
//! The expansion that `literal` writes is exact, so it can be read back: the
//! digits before and behind the point give the value, and a value belongs to
//! one finite double. Only the NaNs, which are all written alike, share a text.

use crate::double;
use crate::literal::{
    canonical, digit_at, digits, expansion, exponent, literal_text, lowest, mantissa, number,
    power, run, unsigned_text, HIDDEN,
};
use crate::text::digit_char;
use vstd::prelude::*;

verus! {

/// Different digits have different characters.
pub proof fn digit_char_injective(a: nat, b: nat)
    requires
        a < 10,
        b < 10,
        digit_char(a) == digit_char(b),
    ensures
        a == b,
{
}

/// The digits of a number spell it, and have no leading zero.
pub proof fn digits_spell(n: nat)
    ensures
        number(digits(n)) == n,
        canonical(digits(n)),
        n > 0 ==> digits(n).len() > 0,
    decreases n,
{
    if n > 0 {
        digits_spell(n / 10);
        let rest = digits(n / 10);
        let d = digits(n);
        assert(d =~= seq![(n % 10) as u8] + rest);
        assert(d.skip(1) =~= rest);
        assert(number(d) == d[0] as nat + 10 * number(d.skip(1)));
        assert forall|i: int| 0 <= i < d.len() implies d[i] < 10 by {
            if i > 0 {
                assert(d[i] == rest[i - 1]);
            }
        }
        if rest.len() > 0 {
            assert(d[d.len() - 1] == rest[rest.len() - 1]);
        } else {
            assert(n / 10 == 0);
        }
    }
}

/// Below the lowest digit that is not 0 all digits are 0, and that digit itself
/// is not, where there is one.
pub proof fn lowest_is_lowest(d: Seq<u8>)
    ensures
        0 <= lowest(d) <= d.len(),
        forall|i: int| i < lowest(d) ==> digit_at(d, i) == 0,
        lowest(d) < d.len() ==> d[lowest(d)] != 0,
        d.len() > 0 && d[d.len() - 1] != 0 ==> lowest(d) < d.len(),
    decreases d.len(),
{
    if d.len() > 0 && d[0] == 0 {
        let rest = d.skip(1);
        lowest_is_lowest(rest);
        assert forall|i: int| i < lowest(d) implies digit_at(d, i) == 0 by {
            if i >= 1 {
                assert(digit_at(d, i) == digit_at(rest, i - 1));
            }
        }
        if rest.len() > 0 {
            assert(rest[rest.len() - 1] == d[d.len() - 1]);
        }
    }
}

/// Digits that agree place by place after a shift by `s` places spell numbers
/// of which one is `10^s` times the other.
pub proof fn shifted_number(d1: Seq<u8>, d2: Seq<u8>, s: nat)
    requires
        canonical(d1),
        canonical(d2),
        d1.len() > 0,
        d2.len() > 0,
        forall|i: int| digit_at(d2, i) == digit_at(d1, i - s),
    ensures
        number(d2) == power(10, s) * number(d1),
    decreases s,
{
    if s == 0 {
        if d1.len() < d2.len() {
            assert(digit_at(d2, d2.len() - 1) == digit_at(d1, d2.len() - 1));
            assert(false);
        }
        if d2.len() < d1.len() {
            assert(digit_at(d2, d1.len() - 1) == digit_at(d1, d1.len() - 1));
            assert(false);
        }
        assert forall|i: int| 0 <= i < d1.len() implies d1[i] == d2[i] by {
            assert(digit_at(d2, i) == digit_at(d1, i - 0));
        }
        assert(d1 =~= d2);
        assert(power(10, 0) == 1);
    } else {
        assert(digit_at(d2, 0) == digit_at(d1, 0 - s));
        assert(d2[0] == 0);
        let rest = d2.skip(1);
        assert(d2.len() >= 2);
        assert(rest[rest.len() - 1] == d2[d2.len() - 1]);
        assert forall|i: int| digit_at(rest, i) == digit_at(d1, i - (s - 1)) by {
            if i >= 0 {
                assert(digit_at(rest, i) == digit_at(d2, i + 1));
                assert(digit_at(d2, i + 1) == digit_at(d1, i + 1 - s));
            }
        }
        shifted_number(d1, rest, (s - 1) as nat);
        assert(number(d2) == d2[0] as nat + 10 * number(rest));
        assert(power(10, s) == 10 * power(10, (s - 1) as nat));
        assert(10 * (power(10, (s - 1) as nat) * number(d1)) == (10 * power(10, (s - 1) as nat))
            * number(d1)) by (nonlinear_arith);
    }
}

/// The digits before the point.
pub open spec fn whole(d: Seq<u8>, k: nat) -> Seq<char> {
    if d.len() > k {
        run(d, d.len() as int, k as int)
    } else {
        seq!['0']
    }
}

/// The digits behind the point, where there is one.
pub open spec fn fraction(d: Seq<u8>, k: nat) -> Seq<char> {
    run(d, k as int, lowest(d))
}

/// The digit of weight `10^j` of the number with digits `d` divided by `10^k`.
pub open spec fn place(d: Seq<u8>, k: nat, j: int) -> nat {
    digit_at(d, j + k)
}

proof fn run_is_digits(d: Seq<u8>, hi: int, lo: int)
    requires
        lo <= hi,
    ensures
        run(d, hi, lo).len() == hi - lo,
        forall|i: int|
            0 <= i < hi - lo ==> crate::text::is_digit(#[trigger] run(d, hi, lo)[i]) && run(
                d,
                hi,
                lo,
            )[i] == digit_char(digit_at(d, hi - 1 - i)),
{
}

/// Two expansions that agree have the same digits before the point, both have
/// a point or neither has, and they have the same digits behind it.
proof fn parts_agree(d1: Seq<u8>, k1: nat, d2: Seq<u8>, k2: nat)
    requires
        expansion(d1, k1) == expansion(d2, k2),
    ensures
        whole(d1, k1) == whole(d2, k2),
        (lowest(d1) < k1) == (lowest(d2) < k2),
        lowest(d1) < k1 ==> fraction(d1, k1) == fraction(d2, k2),
{
    let w1 = whole(d1, k1);
    let w2 = whole(d2, k2);
    let t1 = expansion(d1, k1);
    let t2 = expansion(d2, k2);
    lowest_is_lowest(d1);
    lowest_is_lowest(d2);
    if d1.len() > k1 {
        run_is_digits(d1, d1.len() as int, k1 as int);
    }
    if d2.len() > k2 {
        run_is_digits(d2, d2.len() as int, k2 as int);
    }
    assert(forall|i: int| 0 <= i < w1.len() ==> crate::text::is_digit(#[trigger] w1[i]));
    assert(forall|i: int| 0 <= i < w2.len() ==> crate::text::is_digit(#[trigger] w2[i]));
    let p1 = lowest(d1) < k1;
    let p2 = lowest(d2) < k2;
    if p1 {
        let f1 = fraction(d1, k1);
        assert(t1 == w1 + seq!['.'] + f1);
        assert(t1[w1.len() as int] == '.');
        if p2 {
            let f2 = fraction(d2, k2);
            assert(t2 == w2 + seq!['.'] + f2);
            assert(t2[w2.len() as int] == '.');
            if w1.len() < w2.len() {
                assert(t2[w1.len() as int] == w2[w1.len() as int]);
                assert(false);
            }
            if w2.len() < w1.len() {
                assert(t1[w2.len() as int] == w1[w2.len() as int]);
                assert(false);
            }
            assert(w1 =~= t1.take(w1.len() as int));
            assert(w2 =~= t2.take(w2.len() as int));
            assert(f1 =~= t1.skip(w1.len() as int + 1));
            assert(f2 =~= t2.skip(w2.len() as int + 1));
        } else {
            assert(t2 == w2);
            assert(t2[w1.len() as int] == w2[w1.len() as int]);
            assert(false);
        }
    } else {
        assert(t1 == w1);
        if p2 {
            let f2 = fraction(d2, k2);
            assert(t2 == w2 + seq!['.'] + f2);
            assert(t2[w2.len() as int] == '.');
            assert(t1[w2.len() as int] == w1[w2.len() as int]);
            assert(false);
        } else {
            assert(t2 == w2);
        }
    }
}

/// The same digits before the point are the same digits at every weight from
/// one upwards.
proof fn whole_places(d1: Seq<u8>, k1: nat, d2: Seq<u8>, k2: nat)
    requires
        canonical(d1),
        canonical(d2),
        d1.len() > 0,
        d2.len() > 0,
        whole(d1, k1) == whole(d2, k2),
    ensures
        forall|j: int| j >= 0 ==> #[trigger] place(d1, k1, j) == place(d2, k2, j),
{
    let w1 = whole(d1, k1);
    let w2 = whole(d2, k2);
    if d1.len() > k1 {
        run_is_digits(d1, d1.len() as int, k1 as int);
    }
    if d2.len() > k2 {
        run_is_digits(d2, d2.len() as int, k2 as int);
    }
    assert forall|j: int| j >= 0 implies #[trigger] place(d1, k1, j) == place(d2, k2, j) by {
        if d1.len() > k1 && d2.len() > k2 {
            let len = d1.len() - k1;
            assert(w1.len() == len && w2.len() == len);
            if j < len {
                let i = len - 1 - j;
                assert(w1[i] == digit_char(digit_at(d1, d1.len() - 1 - i)));
                assert(w2[i] == digit_char(digit_at(d2, d2.len() - 1 - i)));
                digit_char_injective(digit_at(d1, j + k1), digit_at(d2, j + k2));
            }
        } else if d1.len() > k1 {
            // a single 0 on the other side: the leading digit would be 0
            assert(w1.len() == 1);
            assert(w1[0] == digit_char(digit_at(d1, d1.len() - 1)));
            assert(w2[0] == '0');
            digit_char_injective(digit_at(d1, d1.len() - 1), 0);
            assert(false);
        } else if d2.len() > k2 {
            assert(w2.len() == 1);
            assert(w2[0] == digit_char(digit_at(d2, d2.len() - 1)));
            assert(w1[0] == '0');
            digit_char_injective(digit_at(d2, d2.len() - 1), 0);
            assert(false);
        }
    }
}

/// The same digits behind the point, or no point on either side, are the same
/// digits at every weight below one.
proof fn fraction_places(d1: Seq<u8>, k1: nat, d2: Seq<u8>, k2: nat)
    requires
        canonical(d1),
        canonical(d2),
        (lowest(d1) < k1) == (lowest(d2) < k2),
        lowest(d1) < k1 ==> fraction(d1, k1) == fraction(d2, k2),
    ensures
        forall|j: int| j < 0 ==> #[trigger] place(d1, k1, j) == place(d2, k2, j),
{
    lowest_is_lowest(d1);
    lowest_is_lowest(d2);
    let z1 = lowest(d1);
    let z2 = lowest(d2);
    if z1 < k1 {
        run_is_digits(d1, k1 as int, z1);
        run_is_digits(d2, k2 as int, z2);
    }
    assert forall|j: int| j < 0 implies #[trigger] place(d1, k1, j) == place(d2, k2, j) by {
        if z1 < k1 {
            let f1 = fraction(d1, k1);
            let f2 = fraction(d2, k2);
            let len = k1 - z1;
            assert(f1.len() == len && f2.len() == k2 - z2);
            if -j <= len {
                let i = -1 - j;
                assert(f1[i] == digit_char(digit_at(d1, k1 - 1 - i)));
                assert(f2[i] == digit_char(digit_at(d2, k2 - 1 - i)));
                digit_char_injective(digit_at(d1, j + k1), digit_at(d2, j + k2));
            }
        }
    }
}

/// Two expansions that agree have the same digit at every weight.
pub proof fn expansion_places(d1: Seq<u8>, k1: nat, d2: Seq<u8>, k2: nat)
    requires
        canonical(d1),
        canonical(d2),
        d1.len() > 0,
        d2.len() > 0,
        expansion(d1, k1) == expansion(d2, k2),
    ensures
        forall|j: int| #[trigger] place(d1, k1, j) == place(d2, k2, j),
{
    parts_agree(d1, k1, d2, k2);
    whole_places(d1, k1, d2, k2);
    fraction_places(d1, k1, d2, k2);
    assert forall|j: int| #[trigger] place(d1, k1, j) == place(d2, k2, j) by {
        if j >= 0 {
        } else {
        }
    }
}

/// Two numbers whose expansions agree, the second over the larger power of
/// ten, differ by that many more places.
pub proof fn expansion_value(n1: nat, k1: nat, n2: nat, k2: nat)
    requires
        n1 > 0,
        n2 > 0,
        k1 <= k2,
        expansion(digits(n1), k1) == expansion(digits(n2), k2),
    ensures
        n2 == power(10, (k2 - k1) as nat) * n1,
{
    digits_spell(n1);
    digits_spell(n2);
    let d1 = digits(n1);
    let d2 = digits(n2);
    expansion_places(d1, k1, d2, k2);
    let s = (k2 - k1) as nat;
    assert forall|i: int| digit_at(d2, i) == digit_at(d1, i - s) by {
        assert(place(d1, k1, i - k2) == place(d2, k2, i - k2));
    }
    shifted_number(d1, d2, s);
}

/// A power of a number above 0 is above 0.
pub proof fn power_positive(base: nat, e: nat)
    requires
        base > 0,
    ensures
        power(base, e) > 0,
    decreases e,
{
    if e > 0 {
        power_positive(base, (e - 1) as nat);
        assert(base * power(base, (e - 1) as nat) > 0) by (nonlinear_arith)
            requires
                base > 0,
                power(base, (e - 1) as nat) > 0,
        ;
    }
}

/// Exponents add where powers are multiplied.
pub proof fn power_adds(base: nat, x: nat, y: nat)
    ensures
        power(base, x + y) == power(base, x) * power(base, y),
    decreases x,
{
    if x == 0 {
        assert(power(base, x) == 1);
        assert(1 * power(base, y) == power(base, y));
    } else {
        power_adds(base, (x - 1) as nat, y);
        let p = power(base, (x - 1) as nat);
        let q = power(base, y);
        assert(power(base, x + y) == base * power(base, (x - 1 + y) as nat));
        assert(base * (p * q) == (base * p) * q) by (nonlinear_arith);
    }
}

/// A power of ten is the product of the powers of two and five.
pub proof fn power_of_ten(e: nat)
    ensures
        power(10, e) == power(2, e) * power(5, e),
    decreases e,
{
    if e > 0 {
        power_of_ten((e - 1) as nat);
        let a = power(2, (e - 1) as nat);
        let b = power(5, (e - 1) as nat);
        assert(power(10, e) == 10 * power(10, (e - 1) as nat));
        assert(power(2, e) == 2 * a);
        assert(power(5, e) == 5 * b);
        let p2 = power(2, e);
        let p5 = power(5, e);
        assert(p2 * p5 == 10 * (a * b)) by (nonlinear_arith)
            requires
                p2 == 2 * a,
                p5 == 5 * b,
        ;
    } else {
        let p2 = power(2, 0);
        let p5 = power(5, 0);
        assert(power(10, 0) == 1 && p2 == 1 && p5 == 1);
        assert(p2 * p5 == 1) by (nonlinear_arith)
            requires
                p2 == 1,
                p5 == 1,
        ;
    }
}

/// The powers of two grow with the exponent.
pub proof fn power_grows(x: nat, y: nat)
    requires
        x <= y,
    ensures
        power(2, x) <= power(2, y),
    decreases y,
{
    if x < y {
        power_grows(x, (y - 1) as nat);
        power_positive(2, (y - 1) as nat);
    }
}

/// The value of a finite magnitude times `2^1074`, which is an integer.
pub open spec fn scaled(mag: u64) -> nat {
    mantissa(mag) * power(2, (exponent(mag) + 1074) as nat)
}

/// The number whose digits are written for a finite magnitude other than 0.
pub open spec fn written(mag: u64) -> nat {
    if exponent(mag) >= 0 {
        mantissa(mag) * power(2, exponent(mag) as nat)
    } else {
        mantissa(mag) * power(5, (-exponent(mag)) as nat)
    }
}

/// The number of digits behind the point that it is divided by.
pub open spec fn places(mag: u64) -> nat {
    if exponent(mag) >= 0 {
        0
    } else {
        (-exponent(mag)) as nat
    }
}

/// The number written, taken back from fifths to halves, is the scaled value.
proof fn scaled_is_written(mag: u64)
    requires
        mag < double::INFINITY,
    ensures
        places(mag) <= 1074,
        scaled(mag) * power(5, places(mag)) == written(mag) * power(
            2,
            (1074 - places(mag)) as nat,
        ),
{
    let m = mantissa(mag);
    let e = exponent(mag);
    if e >= 0 {
        power_adds(2, e as nat, 1074);
        assert(power(5, 0) == 1);
        let a = power(2, e as nat);
        let b = power(2, 1074);
        assert(m * (a * b) * 1 == (m * a) * b) by (nonlinear_arith);
    } else {
        let k = (-e) as nat;
        let a = power(2, (1074 - k) as nat);
        let b = power(5, k);
        assert((m * a) * b == (m * b) * a) by (nonlinear_arith);
    }
}

/// Two finite magnitudes other than 0 whose written numbers differ by the
/// places between them have the same scaled value.
proof fn same_scaled(a: u64, b: u64)
    requires
        a < double::INFINITY,
        b < double::INFINITY,
        places(a) <= places(b),
        written(b) == power(10, (places(b) - places(a)) as nat) * written(a),
    ensures
        scaled(a) == scaled(b),
{
    scaled_is_written(a);
    scaled_is_written(b);
    let ka = places(a);
    let kb = places(b);
    let s = (kb - ka) as nat;
    power_of_ten(s);
    power_adds(2, s, (1074 - kb) as nat);
    power_adds(5, s, ka);
    power_positive(5, kb);
    let two_s = power(2, s);
    let five_s = power(5, s);
    let two_b = power(2, (1074 - kb) as nat);
    let two_a = power(2, (1074 - ka) as nat);
    let five_a = power(5, ka);
    let five_b = power(5, kb);
    let wa = written(a);
    let wb = written(b);
    let sa = scaled(a);
    let sb = scaled(b);
    assert(two_a == two_s * two_b);
    assert(five_b == five_s * five_a);
    assert(sb * five_b == sa * five_b) by (nonlinear_arith)
        requires
            sa * five_a == wa * two_a,
            sb * five_b == wb * two_b,
            wb == (two_s * five_s) * wa,
            two_a == two_s * two_b,
            five_b == five_s * five_a,
    ;
    assert(sa == sb) by (nonlinear_arith)
        requires
            sb * five_b == sa * five_b,
            five_b > 0,
    ;
}

/// Finite magnitudes with the same scaled value are the same.
proof fn scaled_is_injective(a: u64, b: u64)
    requires
        a < double::INFINITY,
        b < double::INFINITY,
        scaled(a) == scaled(b),
    ensures
        a == b,
{
    let ea = a / HIDDEN;
    let eb = b / HIDDEN;
    let fa = a % HIDDEN;
    let fb = b % HIDDEN;
    assert(a == ea * HIDDEN + fa);
    assert(b == eb * HIDDEN + fb);
    if ea == eb {
        if ea == 0 {
            assert(power(2, 0) == 1);
            assert(scaled(a) == fa * 1);
            assert(scaled(b) == fb * 1);
        } else {
            let p = power(2, (ea - 1) as nat);
            power_positive(2, (ea - 1) as nat);
            assert(scaled(a) == (fa + HIDDEN) * p);
            assert(scaled(b) == (fb + HIDDEN) * p);
            assert(fa == fb) by (nonlinear_arith)
                requires
                    (fa + HIDDEN) * p == (fb + HIDDEN) * p,
                    p > 0,
            ;
        }
    } else if ea < eb {
        binade(a);
        binade(b);
        power_grows(ea as nat, (eb - 1) as nat);
        let h = HIDDEN as nat;
        let x = power(2, ea as nat);
        let y = power(2, (eb - 1) as nat);
        assert(h * x <= h * y) by (nonlinear_arith)
            requires
                x <= y,
        ;
        assert(false);
    } else {
        binade(a);
        binade(b);
        power_grows(eb as nat, (ea - 1) as nat);
        let h = HIDDEN as nat;
        let x = power(2, eb as nat);
        let y = power(2, (ea - 1) as nat);
        assert(h * x <= h * y) by (nonlinear_arith)
            requires
                x <= y,
        ;
        assert(false);
    }
}

/// The scaled value of a magnitude lies between the powers of two that its
/// exponent bits name.
proof fn binade(mag: u64)
    requires
        mag < double::INFINITY,
    ensures
        scaled(mag) < HIDDEN * power(2, (mag / HIDDEN) as nat),
        mag / HIDDEN >= 1 ==> HIDDEN * power(2, (mag / HIDDEN - 1) as nat) <= scaled(mag),
{
    let e = mag / HIDDEN;
    let f = mag % HIDDEN;
    let h = HIDDEN as nat;
    if e == 0 {
        assert(power(2, 0) == 1);
        assert(scaled(mag) == f * 1);
    } else {
        let p = power(2, (e - 1) as nat);
        power_positive(2, (e - 1) as nat);
        assert(power(2, e as nat) == 2 * p);
        assert(scaled(mag) == (f + h) * p);
        assert((f + h) * p < h * (2 * p) && h * p <= (f + h) * p) by (nonlinear_arith)
            requires
                f < h,
                p > 0,
        ;
    }
}

/// The expansion of a number above 0 begins with a digit and is not a single 0.
proof fn expansion_begins(d: Seq<u8>, k: nat)
    requires
        canonical(d),
        d.len() > 0,
    ensures
        expansion(d, k).len() > 0,
        crate::text::is_digit(expansion(d, k)[0]),
        expansion(d, k) != seq!['0'],
{
    lowest_is_lowest(d);
    let w = whole(d, k);
    if d.len() > k {
        run_is_digits(d, d.len() as int, k as int);
        assert(w[0] == digit_char(digit_at(d, d.len() - 1)));
        if w[0] == '0' {
            digit_char_injective(digit_at(d, d.len() - 1), 0);
        }
        assert(expansion(d, k)[0] == w[0]);
    } else {
        assert(lowest(d) < k);
        assert(expansion(d, k) == w + seq!['.'] + fraction(d, k));
        assert(expansion(d, k)[0] == w[0]);
        assert(expansion(d, k).len() >= 2);
    }
}

/// The digits written for a finite magnitude other than 0 are those of a
/// number above 0.
proof fn written_is_positive(mag: u64)
    requires
        mag < double::INFINITY,
        mantissa(mag) > 0,
    ensures
        written(mag) > 0,
        unsigned_text(mag) == expansion(digits(written(mag)), places(mag)),
{
    let m = mantissa(mag);
    let e = exponent(mag);
    if e >= 0 {
        power_positive(2, e as nat);
        let p = power(2, e as nat);
        assert(m * p > 0) by (nonlinear_arith)
            requires
                m > 0,
                p > 0,
        ;
    } else {
        power_positive(5, (-e) as nat);
        let p = power(5, (-e) as nat);
        assert(m * p > 0) by (nonlinear_arith)
            requires
                m > 0,
                p > 0,
        ;
    }
}

/// Two magnitudes that are no NaNs and are written alike are the same.
pub proof fn unsigned_spells_one(a: u64, b: u64)
    requires
        a <= double::INFINITY,
        b <= double::INFINITY,
        unsigned_text(a) == unsigned_text(b),
    ensures
        a == b,
{
    reveal_strlit("inf");
    reveal_strlit("0");
    let ta = unsigned_text(a);
    let tb = unsigned_text(b);
    if a < double::INFINITY && mantissa(a) > 0 {
        written_is_positive(a);
        digits_spell(written(a));
        expansion_begins(digits(written(a)), places(a));
    }
    if b < double::INFINITY && mantissa(b) > 0 {
        written_is_positive(b);
        digits_spell(written(b));
        expansion_begins(digits(written(b)), places(b));
    }
    if a == double::INFINITY || b == double::INFINITY {
        // only infinity begins with a letter
        assert(ta[0] == 'i' || tb[0] == 'i');
        assert(ta[0] == tb[0]);
    } else if mantissa(a) == 0 || mantissa(b) == 0 {
        // only zero is a single 0
        assert(ta =~= seq!['0'] || tb =~= seq!['0']);
        assert(mantissa(a) == 0 && mantissa(b) == 0);
        assert(a == (a / HIDDEN) * HIDDEN + a % HIDDEN);
        assert(b == (b / HIDDEN) * HIDDEN + b % HIDDEN);
    } else {
        if places(a) <= places(b) {
            expansion_value(written(a), places(a), written(b), places(b));
            same_scaled(a, b);
        } else {
            expansion_value(written(b), places(b), written(a), places(a));
            same_scaled(b, a);
        }
        scaled_is_injective(a, b);
    }
}

/// Two doubles that are no NaNs and are written alike are the same double.
pub proof fn literal_spells_one(a: u64, b: u64)
    requires
        !double::spec_is_nan(a),
        !double::spec_is_nan(b),
        literal_text(a) == literal_text(b),
    ensures
        a == b,
{
    reveal_strlit("-");
    reveal_strlit("inf");
    reveal_strlit("0");
    let ma = double::spec_magnitude(a);
    let mb = double::spec_magnitude(b);
    let ua = unsigned_text(ma);
    let ub = unsigned_text(mb);
    // a magnitude is written without a sign
    if ma < double::INFINITY && mantissa(ma) > 0 {
        written_is_positive(ma);
        digits_spell(written(ma));
        expansion_begins(digits(written(ma)), places(ma));
    }
    if mb < double::INFINITY && mantissa(mb) > 0 {
        written_is_positive(mb);
        digits_spell(written(mb));
        expansion_begins(digits(written(mb)), places(mb));
    }
    assert(ua.len() > 0 && ua[0] != '-');
    assert(ub.len() > 0 && ub[0] != '-');
    let ta = literal_text(a);
    let tb = literal_text(b);
    if a >= double::SIGN {
        assert(ta == "-"@ + ua);
        assert(ta[0] == '-');
        if b >= double::SIGN {
            assert(tb == "-"@ + ub);
            assert(ua =~= ta.skip(1));
            assert(ub =~= tb.skip(1));
            unsigned_spells_one(ma, mb);
        } else {
            assert(tb == ub);
            assert(false);
        }
    } else {
        assert(ta == ua);
        if b >= double::SIGN {
            assert(tb == "-"@ + ub);
            assert(tb[0] == '-');
            assert(false);
        } else {
            unsigned_spells_one(ma, mb);
        }
    }
}

} // verus!
