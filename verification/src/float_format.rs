//! Texts of bounded width for numbers with a fraction.
//!
//! A floating-point number is written out exactly: its decimal expansion is
//! computed with integers of any size, and rounded to the asked number of
//! places, a tie going to the even neighbor.

use vstd::prelude::*;
use vstd::string::*;
use vstd::arithmetic::div_mod::{lemma_breakdown, lemma_div_denominator, lemma_fundamental_div_mod};
use vstd::arithmetic::power2::{lemma2_to64, lemma_pow2_pos, lemma_pow2_unfold, pow2};
use crate::decimal::{digit_text, digits_ok, lemma_decimal_long, lemma_decimal_split, Big};
use crate::format::{
    decimal, digit, digit_budget, digit_str, lemma_decimal_len, lemma_pow10_grows, pow10, push_repeated,
    repeated, zero_padded,
};
use crate::ieee::{halved_to_nearest, Double};

verus! {

/// The whole part of the size of a finite number.
pub open spec fn whole_part(value: Double) -> nat {
    let m = value.significand() as nat;
    let e = value.exponent();
    if e >= 0 {
        m * pow2(e as nat)
    } else {
        m / pow2((-e) as nat)
    }
}

/// The size of a finite number in units of ten to the power `-precision`,
/// rounded to the nearest integer, a tie going to the even one.
pub open spec fn scaled(value: Double, precision: nat) -> nat {
    let a = value.significand() as nat * pow10(precision);
    let e = value.exponent();
    if e >= 0 {
        a * pow2(e as nat)
    } else {
        halved_to_nearest(a, (-e) as nat)
    }
}

/// A number given in units of ten to the power `-precision`, as text: its
/// whole part, and a point and `precision` decimal places if the precision is
/// not 0.
pub open spec fn fixed_text(n: nat, precision: nat) -> Seq<char> {
    if precision == 0 {
        decimal(n)
    } else {
        decimal(n / pow10(precision)) + seq!['.'] + zero_padded(n % pow10(precision), precision)
    }
}

/// The text of all nines: `digits` nines, and a point and `precision` nines if
/// the precision is not 0.
pub open spec fn nines_text(digits: nat, precision: nat) -> Seq<char> {
    if precision == 0 {
        repeated('9', digits)
    } else {
        repeated('9', digits) + seq!['.'] + repeated('9', precision)
    }
}

/// The sign of a text: a minus for a number whose sign bit is set.
pub open spec fn sign_text(value: Double) -> Seq<char> {
    if value.negative() {
        seq!['-']
    } else {
        Seq::<char>::empty()
    }
}

/// Whether a number has more digits in front of the decimal point than the
/// column has: an infinity has, and a number whose size is ten to the power
/// of the column's digits or more.
pub open spec fn too_long(digits: u8, value: Double) -> bool {
    value.infinite() || (value.finite() && whole_part(value) >= pow10(digit_budget(digits)))
}

/// A number as it is shown in a column of `digits` digits in front of the
/// decimal point and `precision` digits behind it.
///
/// A NaN is shown as `NaN`. A number of too many digits is shown as all
/// nines. Any other number is shown rounded to `precision` decimal places, a
/// tie going to the even neighbor. A minus stands in front if the sign bit is
/// set. The column has one digit at least.
pub open spec fn float_text(digits: u8, precision: u8, value: Double) -> Seq<char> {
    if value.nan() {
        seq!['N', 'a', 'N']
    } else if too_long(digits, value) {
        sign_text(value) + nines_text(digit_budget(digits), precision as nat)
    } else {
        sign_text(value) + fixed_text(scaled(value, precision as nat), precision as nat)
    }
}

/// The width of the text does not grow with the number: whatever the number,
/// its text has at most the digits of the column in front of the point and
/// the asked digits behind it, and three characters more, for the point, the
/// sign, and a digit that rounding up may add.
pub proof fn lemma_float_text_width(digits: u8, precision: u8, value: Double)
    ensures
        float_text(digits, precision, value).len() <= digit_budget(digits) + precision + 3,
{
    let d = digit_budget(digits);
    let p = precision as nat;
    if value.nan() {
    } else if too_long(digits, value) {
    } else {
        let n = scaled(value, p);
        let m = value.significand() as nat;
        let e = value.exponent();
        lemma_pow10_grows(0, p);
        lemma_pow10_grows(0, d);
        let unit = pow10(p);
        let top = pow10(d);
        assert(whole_part(value) < top);
        // the number lies below ten to the power of the digits of the column
        assert(n <= top * unit) by {
            if e >= 0 {
                let f = pow2(e as nat);
                assert(m * unit * f == (m * f) * unit) by (nonlinear_arith);
                assert((m * f) * unit <= top * unit) by (nonlinear_arith)
                    requires
                        m * f < top,
                ;
            } else {
                let f = pow2((-e) as nat);
                lemma_pow2_pos((-e) as nat);
                let a = m * unit;
                lemma_fundamental_div_mod(m as int, f as int);
                lemma_fundamental_div_mod(a as int, f as int);
                assert(m < top * f) by (nonlinear_arith)
                    requires
                        m == f * (m / f) + m % f,
                        m % f < f,
                        m / f < top,
                        f >= 1,
                ;
                assert(a < (top * unit) * f) by (nonlinear_arith)
                    requires
                        a == m * unit,
                        m < top * f,
                        unit >= 1,
                ;
                assert(a / f < top * unit) by (nonlinear_arith)
                    requires
                        a == f * (a / f) + a % f,
                        a % f >= 0,
                        a < (top * unit) * f,
                        f >= 1,
                ;
            }
        }
        assert(pow10(d + 1) == 10 * top);
        if p == 0 {
            assert(unit == 1);
            assert(top * unit == top) by (nonlinear_arith)
                requires
                    unit == 1,
            ;
            lemma_decimal_len(n, d + 1);
        } else {
            lemma_fundamental_div_mod(n as int, unit as int);
            assert(n / unit <= top) by (nonlinear_arith)
                requires
                    n == unit * (n / unit) + n % unit,
                    n % unit >= 0,
                    n <= top * unit,
                    unit >= 1,
            ;
            lemma_decimal_len(n / unit, d + 1);
            lemma_decimal_len(n % unit, p);
        }
    }
}

/// A number as text with `precision` digits after the decimal point,
/// whatever its size: `NaN` for a NaN, `inf` for an infinity, any other
/// number rounded to `precision` decimal places, a tie going to the even
/// neighbor. A minus stands in front if the sign bit is set, but not in front
/// of `NaN`.
pub open spec fn plain_float_text(precision: u8, value: Double) -> Seq<char> {
    if value.nan() {
        seq!['N', 'a', 'N']
    } else if value.infinite() {
        sign_text(value) + seq!['i', 'n', 'f']
    } else {
        sign_text(value) + fixed_text(scaled(value, precision as nat), precision as nat)
    }
}

/// Multiplies a number by two to the power `e`.
fn times_pow2(big: &mut Big, e: u32)
    requires
        old(big).wf(),
    ensures
        final(big).wf(),
        final(big)@ == old(big)@ * pow2(e as nat),
{
    let mut i: u32 = 0;
    let ghost a = big@;
    proof {
        lemma2_to64();
        assert(a * pow2(0) == a) by (nonlinear_arith)
            requires
                pow2(0) == 1,
        ;
    }
    while i < e
        invariant
            i <= e,
            a == old(big)@,
            big.wf(),
            big@ == a * pow2(i as nat),
        decreases e - i,
    {
        proof {
            lemma_pow2_unfold((i + 1) as nat);
            assert(a * pow2(i as nat) * 2 == a * (2 * pow2(i as nat))) by (nonlinear_arith);
        }
        big.times(2);
        i = i + 1;
    }
}

/// Multiplies a number by ten to the power `p`.
fn times_pow10(big: &mut Big, p: u8)
    requires
        old(big).wf(),
    ensures
        final(big).wf(),
        final(big)@ == old(big)@ * pow10(p as nat),
{
    let mut i: u8 = 0;
    let ghost a = big@;
    proof {
        assert(a * pow10(0) == a) by (nonlinear_arith)
            requires
                pow10(0) == 1,
        ;
    }
    while i < p
        invariant
            i <= p,
            a == old(big)@,
            big.wf(),
            big@ == a * pow10(i as nat),
        decreases p - i,
    {
        proof {
            assert(pow10((i + 1) as nat) == 10 * pow10(i as nat));
            assert(a * pow10(i as nat) * 10 == a * (10 * pow10(i as nat))) by (nonlinear_arith);
        }
        big.times(10);
        i = i + 1;
    }
}

/// Divides a number by two to the power `k`, and drops the rest.
fn halve_times(big: &mut Big, k: u32)
    requires
        old(big).wf(),
    ensures
        final(big).wf(),
        final(big)@ == old(big)@ / pow2(k as nat),
{
    let mut i: u32 = 0;
    proof {
        lemma2_to64();
    }
    while i < k
        invariant
            i <= k,
            big.wf(),
            big@ == old(big)@ / pow2(i as nat),
        decreases k - i,
    {
        proof {
            lemma_pow2_unfold((i + 1) as nat);
            lemma_pow2_pos(i as nat);
            lemma_div_denominator(old(big)@ as int, pow2(i as nat) as int, 2);
            assert(pow2(i as nat) * 2 == 2 * pow2(i as nat)) by (nonlinear_arith);
        }
        big.halve();
        i = i + 1;
    }
}

/// Divides a number by two to the power `k`, and rounds to the nearest
/// integer, a tie going to the even one.
fn halve_to_nearest(big: &mut Big, k: u32)
    requires
        old(big).wf(),
        k >= 1,
    ensures
        final(big).wf(),
        final(big)@ == halved_to_nearest(old(big)@, k as nat),
{
    let ghost a = big@;
    let mut i: u32 = 0;
    let mut last: bool = false;
    let mut sticky: bool = false;
    proof {
        lemma2_to64();
    }
    while i < k
        invariant
            i <= k,
            a == old(big)@,
            big.wf(),
            big@ == a / pow2(i as nat),
            i == 0 ==> !last && !sticky,
            i >= 1 ==> last == ((a / pow2((i - 1) as nat)) % 2 == 1),
            i >= 1 ==> sticky == (a % pow2((i - 1) as nat) != 0),
        decreases k - i,
    {
        proof {
            lemma_pow2_unfold((i + 1) as nat);
            lemma_pow2_pos(i as nat);
            lemma_div_denominator(a as int, pow2(i as nat) as int, 2);
            assert(pow2(i as nat) * 2 == 2 * pow2(i as nat)) by (nonlinear_arith);
            if i >= 1 {
                let low = pow2((i - 1) as nat);
                lemma_pow2_unfold(i as nat);
                lemma_pow2_pos((i - 1) as nat);
                lemma_breakdown(a as int, low as int, 2);
                assert(low * 2 == pow2(i as nat)) by (nonlinear_arith)
                    requires
                        pow2(i as nat) == 2 * low,
                ;
                assert(a % pow2(i as nat) == low * ((a / low) % 2) + a % low);
                if (a / low) % 2 == 1 {
                    assert(low * ((a / low) % 2) == low) by (nonlinear_arith)
                        requires
                            (a / low) % 2 == 1,
                    ;
                } else {
                    assert(low * ((a / low) % 2) == 0) by (nonlinear_arith)
                        requires
                            (a / low) % 2 == 0,
                    ;
                }
            } else {
                lemma2_to64();
                assert(a % pow2(0) == 0);
            }
        }
        let odd: bool = big.halve();
        sticky = last || sticky;
        last = odd;
        i = i + 1;
    }
    let even: bool = !big.is_odd();
    proof {
        let low = pow2((k - 1) as nat);
        let unit = pow2(k as nat);
        lemma_pow2_unfold(k as nat);
        lemma_pow2_pos((k - 1) as nat);
        lemma_breakdown(a as int, low as int, 2);
        assert(low * 2 == unit) by (nonlinear_arith)
            requires
                unit == 2 * low,
        ;
        let r = a % unit;
        assert(r == low * ((a / low) % 2) + a % low);
        assert(0 <= a % low < low);
        if last {
            assert(low * ((a / low) % 2) == low) by (nonlinear_arith)
                requires
                    (a / low) % 2 == 1,
            ;
            assert(2 * r > unit <==> sticky);
            assert(2 * r == unit <==> !sticky);
        } else {
            assert(low * ((a / low) % 2) == 0) by (nonlinear_arith)
                requires
                    (a / low) % 2 == 0,
            ;
            assert(2 * r < unit);
        }
    }
    if last && (sticky || !even) {
        big.add_one();
    }
}

/// Appends the characters of the digits from `from` up to `to`.
fn push_digit_range(out: &mut String, digits: &Vec<u8>, from: usize, to: usize)
    requires
        digits_ok(digits@),
        from <= to <= digits@.len(),
    ensures
        final(out)@ == old(out)@ + digit_text(digits@).subrange(from as int, to as int),
{
    let mut i: usize = from;
    proof {
        assert(old(out)@ + digit_text(digits@).subrange(from as int, from as int) =~= old(out)@);
    }
    while i < to
        invariant
            from <= i <= to <= digits@.len(),
            digits_ok(digits@),
            out@ == old(out)@ + digit_text(digits@).subrange(from as int, i as int),
        decreases to - i,
    {
        let d: u8 = digits[i];
        assert(digits@[i as int] < 10);
        out.append(digit_str(d as u64));
        proof {
            assert(digit_text(digits@)[i as int] == digit(d as int));
            assert(old(out)@ + digit_text(digits@).subrange(from as int, i as int) + seq![digit(d as int)] =~= old(
                out,
            )@ + digit_text(digits@).subrange(from as int, i + 1));
        }
        i = i + 1;
    }
}

/// Whether a number that is not a NaN has more digits in front of the decimal
/// point than the column has: see [`too_long`].
fn is_too_long(digits: u8, value: Double) -> (r: bool)
    requires
        !value.nan(),
    ensures
        r == too_long(digits, value),
{
    if value.is_infinite() {
        return true;
    }
    let budget: u8 = if digits < 1 {
        1
    } else {
        digits
    };
    let (m, e) = value.parts();
    let mut whole: Big = Big::from_u64(m);
    if e >= 0 {
        times_pow2(&mut whole, e as u32);
    } else {
        halve_times(&mut whole, (-e) as u32);
    }
    let shown: Vec<u8> = whole.to_digits();
    proof {
        assert(whole@ == whole_part(value));
        assert(digit_text(shown@).len() == shown@.len());
        if whole@ >= pow10(budget as nat) {
            lemma_decimal_long(whole@, budget as nat);
        } else {
            lemma_decimal_len(whole@, budget as nat);
        }
    }
    shown.len() > budget as usize
}

/// The size of a finite number in units of ten to the power `-precision`,
/// rounded: see [`scaled`].
fn scale(value: Double, precision: u8) -> (n: Big)
    requires
        value.finite(),
    ensures
        n.wf(),
        n@ == scaled(value, precision as nat),
{
    let (m, e) = value.parts();
    let mut n: Big = Big::from_u64(m);
    times_pow10(&mut n, precision);
    if e >= 0 {
        times_pow2(&mut n, e as u32);
    } else {
        halve_to_nearest(&mut n, (-e) as u32);
    }
    n
}

/// Appends the text of all nines: see [`nines_text`].
fn push_nines(out: &mut String, digits: u8, precision: u8)
    ensures
        final(out)@ == old(out)@ + nines_text(digits as nat, precision as nat),
{
    proof {
        reveal_strlit("9");
        reveal_strlit(".");
        assert("."@ =~= seq!['.']);
    }
    push_repeated(out, "9", digits as usize);
    if precision > 0 {
        out.append(".");
        push_repeated(out, "9", precision as usize);
    }
    proof {
        assert(out@ =~= old(out)@ + nines_text(digits as nat, precision as nat));
    }
}

/// Appends a number given in units of ten to the power `-precision`: see
/// [`fixed_text`].
fn push_fixed(out: &mut String, n: &Big, precision: u8)
    requires
        n.wf(),
    ensures
        final(out)@ == old(out)@ + fixed_text(n@, precision as nat),
{
    let shown: Vec<u8> = n.to_digits();
    let len: usize = shown.len();
    let p: usize = precision as usize;
    proof {
        reveal_strlit(".");
        reveal_strlit("0");
        assert("."@ =~= seq!['.']);
        assert("0"@ =~= seq!['0']);
        assert(digit_text(shown@).len() == shown@.len());
        assert(digit_text(shown@).subrange(0, len as int) =~= digit_text(shown@));
        if p > 0 {
            lemma_decimal_split(n@, p as nat);
        }
    }
    if p == 0 {
        push_digit_range(out, &shown, 0, len);
    } else if len > p {
        push_digit_range(out, &shown, 0, len - p);
        out.append(".");
        push_digit_range(out, &shown, len - p, len);
        proof {
            let all = decimal(n@);
            let front = decimal(n@ / pow10(p as nat));
            let back = zero_padded(n@ % pow10(p as nat), p as nat);
            assert(all == front + back);
            assert(all.subrange(0, len - p) =~= front);
            assert(all.subrange(len - p, len as int) =~= back);
            assert(out@ =~= old(out)@ + (front + seq!['.'] + back));
        }
    } else {
        out.append("0");
        out.append(".");
        push_repeated(out, "0", p - len);
        push_digit_range(out, &shown, 0, len);
        proof {
            assert(decimal(0) =~= seq!['0']);
            let all = decimal(n@);
            assert(zero_padded(n@, p as nat) =~= repeated('0', (p - len) as nat) + all);
            assert(out@ =~= old(out)@ + (seq!['0'] + seq!['.'] + (repeated('0', (p - len) as nat) + all)));
        }
    }
}

/// Formats a number for a column of `digits` digits in front of the decimal
/// point and `precision` digits behind it: see [`float_text`].
///
/// The text has `precision` digits after the decimal point, and no point if
/// the precision is 0. A number whose size needs more than `digits` digits in
/// front of the point is shown as all nines, so that the width of the text
/// does not grow with the number.
pub fn format_pretty_float(digits: u8, precision: u8, value: Double) -> (r: String)
    ensures
        r@ == float_text(digits, precision, value),
        r@.len() <= digit_budget(digits) + precision + 3,
{
    let mut out: String = String::new();
    proof {
        lemma_float_text_width(digits, precision, value);
    }
    if value.is_nan() {
        proof {
            reveal_strlit("NaN");
            assert("NaN"@ =~= seq!['N', 'a', 'N']);
        }
        out.append("NaN");
        return out;
    }
    if value.is_negative() {
        proof {
            reveal_strlit("-");
            assert("-"@ =~= seq!['-']);
        }
        out.append("-");
    }
    proof {
        assert(out@ =~= sign_text(value));
    }
    if is_too_long(digits, value) {
        let budget: u8 = if digits < 1 {
            1
        } else {
            digits
        };
        push_nines(&mut out, budget, precision);
    } else {
        let n: Big = scale(value, precision);
        push_fixed(&mut out, &n, precision);
    }
    out
}

/// Formats a number with `precision` digits after the decimal point, whatever
/// its size: see [`plain_float_text`].
pub fn format_float(precision: u8, value: Double) -> (r: String)
    ensures
        r@ == plain_float_text(precision, value),
{
    let mut out: String = String::new();
    if value.is_nan() {
        proof {
            reveal_strlit("NaN");
            assert("NaN"@ =~= seq!['N', 'a', 'N']);
        }
        out.append("NaN");
        return out;
    }
    if value.is_negative() {
        proof {
            reveal_strlit("-");
            assert("-"@ =~= seq!['-']);
        }
        out.append("-");
    }
    proof {
        assert(out@ =~= sign_text(value));
    }
    if value.is_infinite() {
        proof {
            reveal_strlit("inf");
            assert("inf"@ =~= seq!['i', 'n', 'f']);
        }
        out.append("inf");
    } else {
        let n: Big = scale(value, precision);
        push_fixed(&mut out, &n, precision);
    }
    out
}

} // verus!
