//! Binary floating-point numbers as bit patterns.
//!
//! Nothing here computes with a floating-point number. A number is held as the
//! bit pattern of its IEEE 754 interchange format, and the functions of this
//! module classify and order such patterns with integer arithmetic alone.

use vstd::prelude::*;
use vstd::arithmetic::div_mod::{lemma_basic_div, lemma_div_denominator, lemma_fundamental_div_mod};
use vstd::arithmetic::power2::{
    lemma2_to64, lemma2_to64_rest, lemma_pow2_adds, lemma_pow2_pos, lemma_pow2_strictly_increases, lemma_pow2_unfold, pow2,
};

verus! {

/// The sign bit of a single-precision pattern.
pub const SINGLE_SIGN: u32 = 0x8000_0000;

/// The pattern of positive infinity in single precision. A magnitude above it
/// is a NaN.
pub const SINGLE_INFINITY: u32 = 0x7f80_0000;

/// The pattern of the number one in single precision.
pub const SINGLE_ONE: u32 = 0x3f80_0000;

/// The sign bit of a double-precision pattern.
pub const DOUBLE_SIGN: u64 = 0x8000_0000_0000_0000;

/// The pattern of positive infinity in double precision. A magnitude above it
/// is a NaN.
pub const DOUBLE_INFINITY: u64 = 0x7ff0_0000_0000_0000;

/// The pattern of the number one hundred in double precision.
pub const DOUBLE_HUNDRED: u64 = 0x4059_0000_0000_0000;

/// A single-precision number, held as its bit pattern.
#[derive(Clone, Copy, Debug, PartialEq, Eq, Structural)]
pub struct Single {
    pub bits: u32,
}

/// A double-precision number, held as its bit pattern.
#[derive(Clone, Copy, Debug, PartialEq, Eq, Structural)]
pub struct Double {
    pub bits: u64,
}

/// How often a number that is not zero has to be doubled until it reaches
/// `top`.
pub open spec fn doublings(m: int, top: int) -> nat
    decreases 2 * top - m,
{
    if m <= 0 || m >= top {
        0
    } else {
        1 + doublings(2 * m, top)
    }
}

/// Two to the power `k`.
fn power_of_two(k: u32) -> (p: u64)
    requires
        k <= 32,
    ensures
        p == pow2(k as nat),
        1 <= p <= 0x1_0000_0000,
{
    let mut p: u64 = 1;
    let mut i: u32 = 0;
    proof {
        lemma2_to64();
    }
    while i < k
        invariant
            i <= k <= 32,
            p == pow2(i as nat),
            1 <= p,
            pow2(32) == 0x1_0000_0000,
            p <= pow2(32),
        decreases k - i,
    {
        proof {
            lemma_pow2_unfold((i + 1) as nat);
            if i + 1 < 32 {
                lemma_pow2_strictly_increases((i + 1) as nat, 32);
            }
        }
        p = p * 2;
        i = i + 1;
    }
    p
}

/// Two to the power `k`, for a `k` below 64.
fn power_of_two_wide(k: u32) -> (p: u64)
    requires
        k <= 62,
    ensures
        p == pow2(k as nat),
        1 <= p <= 0x4000_0000_0000_0000,
{
    let mut p: u64 = 1;
    let mut i: u32 = 0;
    proof {
        lemma2_to64();
        lemma2_to64_rest();
    }
    while i < k
        invariant
            i <= k <= 62,
            p == pow2(i as nat),
            1 <= p,
            pow2(62) == 0x4000_0000_0000_0000,
            p <= pow2(62),
        decreases k - i,
    {
        proof {
            lemma_pow2_unfold((i + 1) as nat);
            if i + 1 < 62 {
                lemma_pow2_strictly_increases((i + 1) as nat, 62);
            }
        }
        p = p * 2;
        i = i + 1;
    }
    p
}

/// A number below 2^53, divided by two to the power `k` and rounded to the
/// nearest integer, lies at or below 2^53 divided by that power, and is zero
/// from the 54th power on.
proof fn lemma_halved_bound(m: nat, k: nat)
    requires
        m < 0x20_0000_0000_0000,
    ensures
        k >= 54 ==> halved_to_nearest(m, k) == 0,
        k <= 53 ==> halved_to_nearest(m, k) * pow2(k) <= 0x20_0000_0000_0000,
{
    lemma2_to64();
    lemma2_to64_rest();
    lemma_pow2_pos(k);
    let unit = pow2(k);
    if k >= 54 {
        if k > 54 {
            lemma_pow2_strictly_increases(54, k);
        }
        lemma_basic_div(m as int, unit as int);
        vstd::arithmetic::div_mod::lemma_small_mod(m, unit);
    } else {
        lemma_fundamental_div_mod(m as int, unit as int);
        let q = m / unit;
        let r = m % unit;
        lemma_pow2_adds(k, (53 - k) as nat);
        let rest = pow2((53 - k) as nat);
        assert(unit * rest == 0x20_0000_0000_0000) by (nonlinear_arith)
            requires
                pow2(k + (53 - k) as nat) == pow2(k) * pow2((53 - k) as nat),
                pow2(53) == 0x20_0000_0000_0000,
                unit == pow2(k),
                rest == pow2((53 - k) as nat),
                k + (53 - k) as nat == 53,
        ;
        // q lies below `rest`, so q + 1 lies at it or below
        assert(q < rest) by (nonlinear_arith)
            requires
                m == unit * q + r,
                r >= 0,
                m < unit * rest,
                unit >= 1,
        ;
        assert((q + 1) * unit <= rest * unit) by (nonlinear_arith)
            requires
                q + 1 <= rest,
                unit >= 1,
        ;
        assert(q * unit <= (q + 1) * unit) by (nonlinear_arith)
            requires
                unit >= 1,
        ;
    }
}

/// A number below 2^53, divided by two to the power `k` and rounded to the
/// nearest integer, a tie going to the even one.
fn round_shift(m: u64, k: u32) -> (q: u64)
    requires
        m < 0x20_0000_0000_0000,
        k >= 1,
    ensures
        q == halved_to_nearest(m as nat, k as nat),
{
    proof {
        lemma_halved_bound(m as nat, k as nat);
    }
    if k >= 54 {
        return 0;
    }
    let unit: u64 = power_of_two_wide(k);
    let whole: u64 = m / unit;
    let rest: u64 = m % unit;
    if 2 * rest > unit || (2 * rest == unit && whole % 2 == 1) {
        whole + 1
    } else {
        whole
    }
}

/// Halving to the nearest integer misses the exact quotient by half a unit
/// at most: the result times two to the power `k` differs from `a` by half
/// of that power or less.
pub proof fn lemma_halved_error(a: nat, k: nat)
    requires
        k >= 1,
    ensures
        -pow2(k) <= 2 * (halved_to_nearest(a, k) * pow2(k) - a) <= pow2(k),
{
    lemma_pow2_pos(k);
    let unit = pow2(k);
    let q = a / unit;
    let r = a % unit;
    lemma_fundamental_div_mod(a as int, unit as int);
    assert((q + 1) * unit == unit * q + unit) by (nonlinear_arith);
    assert(q * unit == unit * q) by (nonlinear_arith);
}

/// Narrowing gives the nearest number: for a number whose nearest number in
/// single precision is finite, the two differ by half a unit of the last
/// digit of the single-precision number at most. Sizes are counted in units
/// of 2^-1074.
pub proof fn lemma_narrowed_is_near(d: Double)
    requires
        d.finite(),
        d.narrowed().finite(),
    ensures
        ({
            let r = d.narrowed();
            let unit = pow2((r.exponent() + 1074) as nat);
            -unit <= 2 * (r.significand() * unit - d.size()) <= unit
        }),
{
    lemma2_to64();
    lemma2_to64_rest();
    let r = d.narrowed();
    let m = d.significand() as nat;
    let e = d.exponent();
    let p = pow2((e + 1074) as nat);
    let mag = d.narrowed_magnitude();
    assert(d.magnitude() == d.exponent_field() * 0x10_0000_0000_0000 + d.fraction_field());
    assert(-1074 <= e <= 971);
    assert(m < 0x20_0000_0000_0000);
    if e >= 76 {
        assert(mag == SINGLE_INFINITY);
        assert(r.magnitude() == SINGLE_INFINITY);
    } else {
        let k: nat = if e >= -178 {
            29
        } else {
            (-149 - e) as nat
        };
        let q = halved_to_nearest(m, k);
        lemma_halved_bound(m, k);
        lemma_halved_error(m, k);
        lemma_pow2_pos(k);
        if k > 30 {
            lemma_pow2_strictly_increases(30, k);
        }
        if k <= 53 && k >= 30 {
            assert(q <= 0x80_0000) by (nonlinear_arith)
                requires
                    q * pow2(k) <= 0x20_0000_0000_0000,
                    pow2(k) >= 0x4000_0000,
            ;
        }
        if e >= -178 {
            assert(m >= 0x10_0000_0000_0000);
            assert(q * 0x2000_0000 <= 0x20_0000_0000_0000);
            assert(q >= 0x80_0000) by {
                assert(m / 0x2000_0000 >= 0x80_0000);
            }
            assert(mag == (e + 178) * 0x80_0000 + q);
        } else {
            assert(mag == q);
        }
        assert(r.magnitude() == mag);
        // the unit of the last digit of `r` is two to the power `k` times `p`,
        // or twice that where rounding carried into the next power of two
        lemma_pow2_adds(k, (e + 1074) as nat);
        let unit = pow2((r.exponent() + 1074) as nat);
        let step = pow2(k) * p;
        if r.significand() == q {
            assert(r.exponent() == e + k);
            assert(unit == step);
        } else {
            assert(r.exponent() == e + k + 1);
            lemma_pow2_unfold((e + k + 1 + 1074) as nat);
            assert(unit == 2 * step);
            assert(2 * r.significand() == q);
        }
        assert(r.significand() * unit == q * step) by (nonlinear_arith)
            requires
                (r.significand() == q && unit == step) || (2 * r.significand() == q && unit == 2 * step),
        ;
        assert(q * step - m * p == (q * pow2(k) - m) * p) by (nonlinear_arith)
            requires
                step == pow2(k) * p,
        ;
        lemma_pow2_pos((e + 1074) as nat);
        assert(-step <= 2 * ((q * pow2(k) - m) * p) <= step) by (nonlinear_arith)
            requires
                -pow2(k) <= 2 * (q * pow2(k) - m) <= pow2(k),
                step == pow2(k) * p,
                p >= 1,
        ;
        assert(d.size() == m * p);
    }
}

/// Doubles a number that is not zero until it reaches `top`, and counts the
/// doublings.
fn normalize(n: u64, top: u64) -> (r: (u64, u64))
    requires
        1 <= n < 2 * top,
        top <= 0x10_0000_0000_0000,
    ensures
        top <= r.0 < 2 * top,
        r.1 <= 52,
        r.1 == doublings(n as int, top as int),
        r.0 == n * pow2(r.1 as nat),
        pow2(r.1 as nat) <= r.0,
{
    let mut m: u64 = n;
    let mut shift: u64 = 0;
    proof {
        lemma2_to64();
    }
    while m < top && shift < 52
        invariant
            1 <= n,
            top <= 0x10_0000_0000_0000,
            1 <= m < 2 * top,
            shift <= 52,
            m == n * pow2(shift as nat),
            doublings(n as int, top as int) == shift + doublings(m as int, top as int),
        decreases 52 - shift,
    {
        proof {
            lemma_pow2_unfold((shift + 1) as nat);
            assert(n * (2 * pow2(shift as nat)) == 2 * (n * pow2(shift as nat))) by (nonlinear_arith);
        }
        m = m * 2;
        shift = shift + 1;
    }
    proof {
        assert(n * pow2(shift as nat) >= pow2(shift as nat)) by (nonlinear_arith)
            requires
                n >= 1,
        ;
        if shift == 52 {
            lemma2_to64_rest();
        }
    }
    (m, shift)
}

/// A power of two below 2^`limit` has an exponent below `limit`.
proof fn lemma_exponent_below(e: nat, limit: nat)
    requires
        pow2(e) < pow2(limit),
    ensures
        e < limit,
{
    if e > limit {
        lemma_pow2_strictly_increases(limit, e);
    }
}

/// `a` divided by two to the power `k`, rounded to the nearest integer, a tie
/// going to the even one.
pub open spec fn halved_to_nearest(a: nat, k: nat) -> nat {
    let unit = pow2(k);
    let q = a / unit;
    let r = a % unit;
    if 2 * r > unit || (2 * r == unit && q % 2 == 1) {
        q + 1
    } else {
        q
    }
}

/// How often a number has to be halved, the rest dropped, until it falls
/// below 2^24.
pub open spec fn halvings(n: int) -> nat
    decreases n,
{
    if n < 0x100_0000 {
        0
    } else {
        1 + halvings(n / 2)
    }
}

/// The double-precision pattern `d` holds the number of the single-precision
/// pattern `s`: the sign is the same, a NaN stands for a NaN and an infinity
/// for an infinity, and two finite patterns have the same size.
pub open spec fn same_number(s: Single, d: Double) -> bool {
    &&& s.negative() == d.negative()
    &&& s.nan() == d.nan()
    &&& s.infinite() == d.infinite()
    &&& s.finite() ==> d.exponent() <= s.exponent() && d.significand() == s.significand() * pow2(
        (s.exponent() - d.exponent()) as nat,
    )
}

/// Powers of two grow with the exponent.
proof fn lemma_pow2_grows(a: nat, b: nat)
    requires
        a <= b,
    ensures
        1 <= pow2(a) <= pow2(b),
{
    lemma_pow2_pos(a);
    if a < b {
        lemma_pow2_strictly_increases(a, b);
    }
}

/// The patterns of finite numbers are ordered as the sizes of the numbers:
/// of two finite numbers in single precision, the pattern of the one has the
/// smaller magnitude exactly if the number has the smaller size.
pub proof fn lemma_single_sizes_in_order(a: Single, b: Single)
    requires
        a.finite(),
        b.finite(),
    ensures
        a.magnitude() < b.magnitude() <==> a.size() < b.size(),
        a.magnitude() == b.magnitude() <==> a.size() == b.size(),
{
    if a.magnitude() < b.magnitude() {
        lemma_single_size_rises(a, b);
    } else if b.magnitude() < a.magnitude() {
        lemma_single_size_rises(b, a);
    } else {
        assert(a.exponent_field() == b.exponent_field());
        assert(a.fraction_field() == b.fraction_field());
    }
}

/// Of two finite numbers in single precision, the one whose pattern has the
/// smaller magnitude has the smaller size.
proof fn lemma_single_size_rises(a: Single, b: Single)
    requires
        a.magnitude() < b.magnitude() < SINGLE_INFINITY,
    ensures
        a.size() < b.size(),
{
    lemma2_to64();
    let ea = a.exponent_field();
    let fa = a.fraction_field();
    let eb = b.exponent_field();
    let fb = b.fraction_field();
    assert(a.magnitude() == ea * 0x80_0000 + fa);
    assert(b.magnitude() == eb * 0x80_0000 + fb);
    assert(0 <= ea <= eb <= 254);
    let pa = pow2((a.exponent() + 149) as nat);
    let pb = pow2((b.exponent() + 149) as nat);
    lemma_pow2_grows((a.exponent() + 149) as nat, (b.exponent() + 149) as nat);
    if ea == eb || (ea == 0 && eb == 1) {
        assert(pa == pb);
        assert(a.significand() < b.significand());
        assert(a.significand() * pa < b.significand() * pa) by (nonlinear_arith)
            requires
                a.significand() < b.significand(),
                pa >= 1,
        ;
    } else {
        // the exponent of `b` is greater by one at least
        let up = (a.exponent() + 150) as nat;
        lemma_pow2_unfold(up);
        lemma_pow2_grows(up, (b.exponent() + 149) as nat);
        assert(a.significand() * pa < 0x80_0000 * pb) by (nonlinear_arith)
            requires
                0 <= a.significand() < 0x100_0000,
                pb >= 2 * pa,
                pa >= 1,
        ;
        assert(0x80_0000 * pb <= b.significand() * pb) by (nonlinear_arith)
            requires
                b.significand() >= 0x80_0000,
                pb >= 1,
        ;
    }
}

/// The patterns of finite numbers are ordered as the sizes of the numbers:
/// of two finite numbers in double precision, the pattern of the one has the
/// smaller magnitude exactly if the number has the smaller size.
pub proof fn lemma_double_sizes_in_order(a: Double, b: Double)
    requires
        a.finite(),
        b.finite(),
    ensures
        a.magnitude() < b.magnitude() <==> a.size() < b.size(),
        a.magnitude() == b.magnitude() <==> a.size() == b.size(),
{
    if a.magnitude() < b.magnitude() {
        lemma_double_size_rises(a, b);
    } else if b.magnitude() < a.magnitude() {
        lemma_double_size_rises(b, a);
    } else {
        assert(a.exponent_field() == b.exponent_field());
        assert(a.fraction_field() == b.fraction_field());
    }
}

/// Of two finite numbers in double precision, the one whose pattern has the
/// smaller magnitude has the smaller size.
proof fn lemma_double_size_rises(a: Double, b: Double)
    requires
        a.magnitude() < b.magnitude() < DOUBLE_INFINITY,
    ensures
        a.size() < b.size(),
{
    let ea = a.exponent_field();
    let fa = a.fraction_field();
    let eb = b.exponent_field();
    let fb = b.fraction_field();
    assert(a.magnitude() == ea * 0x10_0000_0000_0000 + fa);
    assert(b.magnitude() == eb * 0x10_0000_0000_0000 + fb);
    assert(0 <= ea <= eb <= 2046);
    let pa = pow2((a.exponent() + 1074) as nat);
    let pb = pow2((b.exponent() + 1074) as nat);
    lemma_pow2_grows((a.exponent() + 1074) as nat, (b.exponent() + 1074) as nat);
    if ea == eb || (ea == 0 && eb == 1) {
        assert(pa == pb);
        assert(a.significand() < b.significand());
        assert(a.significand() * pa < b.significand() * pa) by (nonlinear_arith)
            requires
                a.significand() < b.significand(),
                pa >= 1,
        ;
    } else {
        let up = (a.exponent() + 1075) as nat;
        lemma_pow2_unfold(up);
        lemma_pow2_grows(up, (b.exponent() + 1074) as nat);
        assert(a.significand() * pa < 0x10_0000_0000_0000 * pb) by (nonlinear_arith)
            requires
                0 <= a.significand() < 0x20_0000_0000_0000,
                pb >= 2 * pa,
                pa >= 1,
        ;
        assert(0x10_0000_0000_0000 * pb <= b.significand() * pb) by (nonlinear_arith)
            requires
                b.significand() >= 0x10_0000_0000_0000,
                pb >= 1,
        ;
    }
}

/// Doubling a number as often as [`doublings`] says brings it to `top` or
/// above, and not to twice `top`.
pub proof fn lemma_doublings(m: int, top: int)
    requires
        1 <= m < 2 * top,
    ensures
        top <= m * pow2(doublings(m, top)) < 2 * top,
    decreases 2 * top - m,
{
    if m >= top {
        assert(pow2(0) == 1) by {
            lemma2_to64();
        }
        assert(doublings(m, top) == 0);
        assert(m * pow2(0) == m) by (nonlinear_arith)
            requires
                pow2(0) == 1,
        ;
    } else {
        lemma_doublings(2 * m, top);
        let d = doublings(2 * m, top);
        assert(doublings(m, top) == d + 1);
        lemma_pow2_unfold(d + 1);
        assert(pow2(d + 1) == 2 * pow2(d));
        assert(m * pow2(d + 1) == (2 * m) * pow2(d)) by (nonlinear_arith)
            requires
                pow2(d + 1) == 2 * pow2(d),
        ;
    }
}

/// The pattern that [`Single::widened`] gives holds the same number: the sign
/// and the kind are kept, and a finite number keeps its size.
pub proof fn lemma_widened(s: Single)
    ensures
        same_number(s, s.widened()),
        0 <= s.widened_magnitude() < DOUBLE_SIGN,
        s.widened().magnitude() == s.widened_magnitude(),
{
    lemma2_to64();
    let e = s.exponent_field();
    let f = s.fraction_field();
    let w = s.widened_magnitude();
    let d = s.widened();
    assert(s.magnitude() == e * 0x80_0000 + f);
    assert(0 <= e <= 255);
    if e == 255 {
        assert(w == DOUBLE_INFINITY + f * 0x2000_0000);
    } else if e == 0 {
        if f != 0 {
            let n = doublings(f, 0x80_0000);
            let m = f * pow2(n);
            lemma_doublings(f, 0x80_0000);
            assert(pow2(n) <= m) by (nonlinear_arith)
                requires
                    m == f * pow2(n),
                    f >= 1,
            ;
            assert(pow2(24) == 0x100_0000);
            lemma_exponent_below(n, 24);
            lemma_pow2_adds(n, 29);
            assert(m * 0x2000_0000 == f * pow2(n + 29)) by (nonlinear_arith)
                requires
                    m == f * pow2(n),
                    pow2(n + 29) == pow2(n) * 0x2000_0000,
            ;
            assert(w == (897 - n) * 0x10_0000_0000_0000 + (m - 0x80_0000) * 0x2000_0000);
            assert(d.magnitude() == w);
            assert(d.exponent_field() == 897 - n);
            assert(d.fraction_field() == (m - 0x80_0000) * 0x2000_0000);
            assert(s.exponent() - d.exponent() == n + 29);
            assert(d.significand() == m * 0x2000_0000);
            assert(s.significand() == f);
        } else {
            assert(d.significand() == 0);
            assert(s.significand() * pow2(925) == 0) by (nonlinear_arith)
                requires
                    s.significand() == 0,
            ;
        }
    } else {
        assert(w == (e + 896) * 0x10_0000_0000_0000 + f * 0x2000_0000);
        assert(d.magnitude() == w);
        assert(d.exponent_field() == e + 896);
        assert(d.fraction_field() == f * 0x2000_0000);
        assert(pow2(29) == 0x2000_0000);
        assert(s.exponent() - d.exponent() == 29);
        assert(s.significand() * pow2(29) == (0x80_0000 + f) * 0x2000_0000);
        assert(d.significand() == 0x10_0000_0000_0000 + f * 0x2000_0000);
    }
}

/// Of two numbers below `top` that are not zero, the smaller needs at least as
/// many doublings to reach it.
proof fn lemma_doublings_order(x: int, y: int, top: int)
    requires
        1 <= x <= y < top,
    ensures
        doublings(x, top) >= doublings(y, top),
{
    let nx = doublings(x, top);
    let ny = doublings(y, top);
    lemma_doublings(x, top);
    lemma_doublings(y, top);
    if nx < ny {
        lemma_pow2_unfold(nx + 1);
        if nx + 1 < ny {
            lemma_pow2_strictly_increases(nx + 1, ny);
        }
        assert(y * pow2(ny) >= x * (2 * pow2(nx))) by (nonlinear_arith)
            requires
                1 <= x <= y,
                pow2(ny) >= 2 * pow2(nx),
                pow2(nx) >= 0,
        ;
        assert(x * (2 * pow2(nx)) == 2 * (x * pow2(nx))) by (nonlinear_arith);
    }
}

/// The step of the double-precision patterns on which the widened pattern of
/// a number or an infinity lies, counted in units of 2^52: the pattern lies
/// on its step or above, and below the next one.
spec fn step(s: Single) -> int {
    let e = s.exponent_field();
    let f = s.fraction_field();
    if e == 0 {
        if f == 0 {
            0
        } else {
            897 - doublings(f, 0x80_0000)
        }
    } else if e == 255 {
        2047
    } else {
        e + 896
    }
}

/// Where the widened pattern of a number or an infinity lies.
proof fn lemma_step(s: Single)
    requires
        s.magnitude() <= SINGLE_INFINITY,
    ensures
        step(s) * 0x10_0000_0000_0000 <= s.widened_magnitude() < (step(s) + 1) * 0x10_0000_0000_0000,
        s.magnitude() == 0 <==> s.widened_magnitude() == 0,
        s.exponent_field() == 0 && s.fraction_field() != 0 ==> 874 <= step(s) <= 896,
        s.exponent_field() == 0 && s.fraction_field() != 0 ==> s.widened_magnitude() == (step(s) - 1) * 0x10_0000_0000_0000
            + s.fraction_field() * pow2(doublings(s.fraction_field(), 0x80_0000)) * 0x2000_0000,
{
    lemma2_to64();
    let e = s.exponent_field();
    let f = s.fraction_field();
    assert(s.magnitude() == e * 0x80_0000 + f);
    if e == 0 && f != 0 {
        let n = doublings(f, 0x80_0000);
        let m = f * pow2(n);
        lemma_doublings(f, 0x80_0000);
        assert(pow2(n) <= m) by (nonlinear_arith)
            requires
                m == f * pow2(n),
                f >= 1,
        ;
        assert(pow2(24) == 0x100_0000);
        lemma_exponent_below(n, 24);
        assert(n >= 1);
    }
}

/// Widening keeps the order of sizes: of two patterns that are numbers or
/// infinities, the one of the smaller size has the smaller widened pattern.
pub proof fn lemma_widened_magnitude_order(a: Single, b: Single)
    requires
        a.magnitude() < b.magnitude() <= SINGLE_INFINITY,
    ensures
        a.widened_magnitude() < b.widened_magnitude(),
{
    lemma2_to64();
    lemma_step(a);
    lemma_step(b);
    let ea = a.exponent_field();
    let fa = a.fraction_field();
    let eb = b.exponent_field();
    let fb = b.fraction_field();
    assert(a.magnitude() == ea * 0x80_0000 + fa);
    assert(b.magnitude() == eb * 0x80_0000 + fb);
    assert(ea <= eb);
    if ea == eb {
        assert(fa < fb);
        if ea == 0 && fa != 0 {
            lemma_doublings_order(fa, fb, 0x80_0000);
            let na = doublings(fa, 0x80_0000);
            let nb = doublings(fb, 0x80_0000);
            if na == nb {
                assert(fa * pow2(na) < fb * pow2(na)) by (nonlinear_arith)
                    requires
                        fa < fb,
                        pow2(na) >= 1,
                ;
            }
        }
    } else {
        assert(step(a) < step(b));
        assert((step(a) + 1) * 0x10_0000_0000_0000 <= step(b) * 0x10_0000_0000_0000);
    }
}

/// Widening keeps the order of numbers: of two patterns that are not NaN, one
/// lies below the other exactly if their widened patterns do, and they are
/// the same number exactly if their widened patterns are.
pub proof fn lemma_widened_keeps_order(a: Single, b: Single)
    requires
        !a.nan(),
        !b.nan(),
    ensures
        a.key() < b.key() <==> a.widened().key() < b.widened().key(),
        a.key() == b.key() <==> a.widened().key() == b.widened().key(),
        a.lt(b) <==> a.widened().lt(b.widened()),
        a.same(b) <==> a.widened().same(b.widened()),
{
    lemma_widened(a);
    lemma_widened(b);
    lemma_step(a);
    lemma_step(b);
    if a.magnitude() < b.magnitude() {
        lemma_widened_magnitude_order(a, b);
    } else if b.magnitude() < a.magnitude() {
        lemma_widened_magnitude_order(b, a);
    } else {
        assert(a.exponent_field() == b.exponent_field());
        assert(a.fraction_field() == b.fraction_field());
    }
}

/// Widening keeps what kind of pattern a number is: a NaN stays a NaN, and
/// nothing else becomes one.
pub proof fn lemma_widened_nan(s: Single)
    ensures
        s.widened().nan() == s.nan(),
{
    lemma_widened(s);
}

impl Single {
    /// The pattern with the sign bit cleared.
    pub open spec fn magnitude(self) -> int {
        if self.bits >= SINGLE_SIGN {
            self.bits - SINGLE_SIGN
        } else {
            self.bits as int
        }
    }

    /// Whether the sign bit is set.
    pub open spec fn negative(self) -> bool {
        self.bits >= SINGLE_SIGN
    }

    /// Whether the pattern is a NaN.
    pub open spec fn nan(self) -> bool {
        self.magnitude() > SINGLE_INFINITY
    }

    /// Whether the pattern is an infinity.
    pub open spec fn infinite(self) -> bool {
        self.magnitude() == SINGLE_INFINITY
    }

    /// Whether the pattern is a number: neither an infinity nor a NaN.
    pub open spec fn finite(self) -> bool {
        self.magnitude() < SINGLE_INFINITY
    }

    /// The exponent field of the pattern: its 8 bits below the sign.
    pub open spec fn exponent_field(self) -> int {
        self.magnitude() / 0x80_0000
    }

    /// The fraction field of the pattern: its lowest 23 bits.
    pub open spec fn fraction_field(self) -> int {
        self.magnitude() % 0x80_0000
    }

    /// The significand of a finite number as an integer: the size of the
    /// number is `significand() * 2^exponent()`.
    pub open spec fn significand(self) -> int {
        if self.exponent_field() == 0 {
            self.fraction_field()
        } else {
            0x80_0000 + self.fraction_field()
        }
    }

    /// The power of two that the significand of a finite number counts.
    pub open spec fn exponent(self) -> int {
        if self.exponent_field() == 0 {
            -149
        } else {
            self.exponent_field() - 150
        }
    }

    /// The size of a finite number, counted in units of 2^-149, the smallest
    /// size that single precision has.
    pub open spec fn size(self) -> int {
        self.significand() * pow2((self.exponent() + 149) as nat)
    }

    /// The whole part of the number as an unsigned integer of 32 bits: zero
    /// for a NaN and for a negative number, the greatest such integer for a
    /// number above it, and otherwise the number without its fraction.
    pub open spec fn whole_u32(self) -> int {
        if self.nan() || self.negative() {
            0
        } else if self.infinite() {
            u32::MAX as int
        } else if self.exponent() >= 0 {
            let size = self.significand() * pow2(self.exponent() as nat);
            if size > u32::MAX {
                u32::MAX as int
            } else {
                size
            }
        } else {
            self.significand() / (pow2((-self.exponent()) as nat) as int)
        }
    }

    /// The single-precision number nearest to `n`. Up to 2^24 that is `n`
    /// itself. Above, a number keeps its 24 highest bits and is rounded by the
    /// rest: up if the rest is more than half a unit of the last bit kept, and
    /// on a tie to the even neighbor.
    pub open spec fn nearest_u32(n: u32) -> Single {
        if n == 0 {
            Single { bits: 0 }
        } else if n < 0x100_0000 {
            let s = doublings(n as int, 0x80_0000);
            Single { bits: ((150 - s) * 0x80_0000 + n * pow2(s) - 0x80_0000) as u32 }
        } else {
            let d = halvings(n as int);
            let unit = pow2(d) as int;
            let kept = (n as int) / unit;
            let rest = (n as int) % unit;
            let up: int = if 2 * rest > unit || (2 * rest == unit && kept % 2 == 1) {
                1
            } else {
                0
            };
            Single { bits: ((150 + d) * 0x80_0000 + kept + up - 0x80_0000) as u32 }
        }
    }

    /// The pattern of the same number in double precision, without its sign.
    /// An infinity gives the infinity, a NaN a NaN. A number takes the
    /// exponent and the fraction that give it the same size; one below the
    /// smallest normal number is first brought to the normal form that double
    /// precision has for it.
    pub open spec fn widened_magnitude(self) -> int {
        let e = self.exponent_field();
        let f = self.fraction_field();
        if e == 255 {
            DOUBLE_INFINITY + f * 0x2000_0000
        } else if e == 0 {
            if f == 0 {
                0
            } else {
                (897 - doublings(f, 0x80_0000)) * 0x10_0000_0000_0000 + (f * pow2(doublings(f, 0x80_0000))
                    - 0x80_0000) * 0x2000_0000
            }
        } else {
            (e + 896) * 0x10_0000_0000_0000 + f * 0x2000_0000
        }
    }

    /// The same number in double precision: see [`same_number`].
    pub open spec fn widened(self) -> Double {
        Double {
            bits: (if self.negative() {
                DOUBLE_SIGN + self.widened_magnitude()
            } else {
                self.widened_magnitude()
            }) as u64,
        }
    }

    /// The place of the number in the numerical order: of two patterns that are
    /// not NaN, the smaller number has the smaller key, and the two zeros share
    /// the key 0.
    pub open spec fn key(self) -> int {
        if self.negative() {
            -self.magnitude()
        } else {
            self.magnitude()
        }
    }

    /// The comparison `<` of the two numbers: false when either is a NaN.
    pub open spec fn lt(self, other: Single) -> bool {
        !self.nan() && !other.nan() && self.key() < other.key()
    }

    /// The comparison `<=` of the two numbers: false when either is a NaN.
    pub open spec fn le(self, other: Single) -> bool {
        !self.nan() && !other.nan() && self.key() <= other.key()
    }

    /// The comparison `==` of the two numbers: false when either is a NaN, true
    /// of the two zeros.
    pub open spec fn same(self, other: Single) -> bool {
        !self.nan() && !other.nan() && self.key() == other.key()
    }

    /// The larger of the two numbers, a NaN giving way to the other operand.
    /// Of two equal numbers it is the first.
    pub open spec fn max_of(self, other: Single) -> Single {
        if self.nan() {
            other
        } else if other.nan() {
            self
        } else if self.key() < other.key() {
            other
        } else {
            self
        }
    }

    /// The smaller of the two numbers, a NaN giving way to the other operand.
    /// Of two equal numbers it is the first.
    pub open spec fn min_of(self, other: Single) -> Single {
        if self.nan() {
            other
        } else if other.nan() {
            self
        } else if other.key() < self.key() {
            other
        } else {
            self
        }
    }

    /// The number with the given bit pattern.
    pub fn from_bits(bits: u32) -> (r: Single)
        ensures
            r.bits == bits,
    {
        Single { bits }
    }

    /// The bit pattern of the number.
    pub fn to_bits(&self) -> (r: u32)
        ensures
            r == self.bits,
    {
        self.bits
    }

    /// Positive zero.
    pub fn zero() -> (r: Single)
        ensures
            r.bits == 0,
            r.key() == 0,
            !r.nan(),
    {
        Single { bits: 0 }
    }

    /// The number one.
    pub fn one() -> (r: Single)
        ensures
            r.bits == SINGLE_ONE,
            !r.nan(),
    {
        Single { bits: SINGLE_ONE }
    }

    /// Negative infinity: no number lies below it.
    pub fn neg_infinity() -> (r: Single)
        ensures
            r.bits == SINGLE_SIGN + SINGLE_INFINITY,
            !r.nan(),
            forall|x: Single| !x.nan() ==> r.key() <= x.key(),
    {
        Single { bits: 0xff80_0000 }
    }

    /// Whether the pattern is a NaN.
    pub fn is_nan(&self) -> (r: bool)
        ensures
            r == self.nan(),
    {
        if self.bits >= SINGLE_SIGN {
            self.bits - SINGLE_SIGN > SINGLE_INFINITY
        } else {
            self.bits > SINGLE_INFINITY
        }
    }

    /// The place of the number in the numerical order: see `key`.
    pub fn order_key(&self) -> (k: i64)
        ensures
            k == self.key(),
    {
        if self.bits >= SINGLE_SIGN {
            let m: u32 = self.bits - SINGLE_SIGN;
            -(m as i64)
        } else {
            self.bits as i64
        }
    }

    /// The comparison `<`: false when either number is a NaN.
    pub fn is_lt(&self, other: &Single) -> (r: bool)
        ensures
            r == self.lt(*other),
    {
        !self.is_nan() && !other.is_nan() && self.order_key() < other.order_key()
    }

    /// The comparison `<=`: false when either number is a NaN.
    pub fn is_le(&self, other: &Single) -> (r: bool)
        ensures
            r == self.le(*other),
    {
        !self.is_nan() && !other.is_nan() && self.order_key() <= other.order_key()
    }

    /// The comparison `>`: false when either number is a NaN.
    pub fn is_gt(&self, other: &Single) -> (r: bool)
        ensures
            r == other.lt(*self),
    {
        other.is_lt(self)
    }

    /// The comparison `>=`: false when either number is a NaN.
    pub fn is_ge(&self, other: &Single) -> (r: bool)
        ensures
            r == other.le(*self),
    {
        other.is_le(self)
    }

    /// The comparison `==`: false when either number is a NaN, true of the
    /// two zeros.
    pub fn is_same(&self, other: &Single) -> (r: bool)
        ensures
            r == self.same(*other),
    {
        !self.is_nan() && !other.is_nan() && self.order_key() == other.order_key()
    }

    /// The same number in double precision. Every single-precision number has
    /// one; a NaN gives a NaN.
    pub fn widen(self) -> (r: Double)
        ensures
            r == self.widened(),
            same_number(self, r),
    {
        let negative: bool = self.bits >= SINGLE_SIGN;
        let mag: u32 = if negative {
            self.bits - SINGLE_SIGN
        } else {
            self.bits
        };
        let e: u32 = mag / 0x80_0000;
        let f: u32 = mag % 0x80_0000;
        proof {
            lemma2_to64();
            lemma_widened(self);
        }
        let wide: u64 = if e == 255 {
            DOUBLE_INFINITY + (f as u64) * 0x2000_0000
        } else if e == 0 {
            if f == 0 {
                0
            } else {
                let (m, shift) = normalize(f as u64, 0x80_0000);
                proof {
                    lemma_exponent_below(shift as nat, 24);
                }
                (897 - shift) * 0x10_0000_0000_0000 + (m - 0x80_0000) * 0x2000_0000
            }
        } else {
            ((e as u64) + 896) * 0x10_0000_0000_0000 + (f as u64) * 0x2000_0000
        };
        Double {
            bits: if negative {
                DOUBLE_SIGN + wide
            } else {
                wide
            },
        }
    }

    /// The whole part of the number as an unsigned integer of 32 bits: see
    /// [`Single::whole_u32`].
    pub fn to_u32(self) -> (r: u32)
        ensures
            r == self.whole_u32(),
    {
        if self.is_nan() || self.bits >= SINGLE_SIGN {
            return 0;
        }
        let e: u32 = self.bits / 0x80_0000;
        let f: u32 = self.bits % 0x80_0000;
        proof {
            lemma2_to64();
            assert(self.magnitude() == self.bits);
            assert(self.exponent_field() == e);
            assert(self.fraction_field() == f);
        }
        if e == 255 {
            return u32::MAX;
        }
        if e < 127 {
            proof {
                let down = (-self.exponent()) as nat;
                assert(down >= 24);
                if down > 24 {
                    lemma_pow2_strictly_increases(24, down);
                }
                lemma_basic_div(self.significand(), pow2(down) as int);
            }
            return 0;
        }
        let sig: u64 = 0x80_0000 + (f as u64);
        if e >= 159 {
            proof {
                let up = (e - 150) as nat;
                if up > 9 {
                    lemma_pow2_strictly_increases(9, up);
                }
                assert(sig * pow2(up) >= 0x1_0000_0000) by (nonlinear_arith)
                    requires
                        sig >= 0x80_0000,
                        pow2(up) >= 0x200,
                ;
            }
            return u32::MAX;
        }
        if e >= 150 {
            let p: u64 = power_of_two(e - 150);
            proof {
                let up = (e - 150) as nat;
                if up < 8 {
                    lemma_pow2_strictly_increases(up, 8);
                }
                assert(sig * p < 0x1_0000_0000) by (nonlinear_arith)
                    requires
                        sig < 0x100_0000,
                        p <= 0x100,
                ;
            }
            (sig * p) as u32
        } else {
            let p: u64 = power_of_two(150 - e);
            (sig / p) as u32
        }
    }

    /// The single-precision number nearest to `n`: see
    /// [`Single::nearest_u32`]. The result is a number that is not negative.
    /// Up to 2^24 it has the size of `n`; above, it differs from `n` by half a
    /// unit of its last bit at most.
    pub fn from_u32(n: u32) -> (r: Single)
        ensures
            r == Single::nearest_u32(n),
            r.finite(),
            !r.negative(),
            n < 0x100_0000 ==> r.exponent() <= 0 && r.significand() == n * pow2((-r.exponent()) as nat),
            n >= 0x100_0000 ==> r.exponent() > 0 && -pow2(r.exponent() as nat) <= 2 * (r.significand() * pow2(
                r.exponent() as nat,
            ) - n) <= pow2(r.exponent() as nat),
    {
        proof {
            lemma2_to64();
        }
        if n == 0 {
            proof {
                assert((Single { bits: 0 }).exponent() == -149);
                assert((Single { bits: 0 }).significand() == 0);
                assert(0 == n * pow2(149)) by (nonlinear_arith)
                    requires
                        n == 0,
                ;
            }
            return Single { bits: 0 };
        }
        if n < 0x100_0000 {
            let (m, s) = normalize(n as u64, 0x80_0000);
            proof {
                lemma_exponent_below(s as nat, 24);
            }
            let bits: u32 = ((150 - s) * 0x80_0000 + (m - 0x80_0000)) as u32;
            let r = Single { bits };
            proof {
                assert(bits == (150 - s) * 0x80_0000 + (m - 0x80_0000));
                assert(r.magnitude() == bits);
                assert(r.exponent_field() == 150 - s);
                assert(r.fraction_field() == m - 0x80_0000);
            }
            return r;
        }
        let mut kept: u32 = n;
        let mut d: u32 = 0;
        while kept >= 0x100_0000
            invariant
                n >= 0x100_0000,
                d <= 8,
                kept == (n as int) / (pow2(d as nat) as int),
                kept >= 0x80_0000,
                pow2(d as nat) * 0x100_0000 <= 0x1_0000_0000 || kept < 0x100_0000,
                pow2(d as nat) >= 1,
                halvings(n as int) == d + halvings(kept as int),
            decreases kept,
        {
            proof {
                lemma2_to64();
                lemma_pow2_unfold((d + 1) as nat);
                lemma_div_denominator(n as int, pow2(d as nat) as int, 2);
                assert(pow2(d as nat) * 2 == 2 * pow2(d as nat)) by (nonlinear_arith);
                // n >= kept * 2^d >= 2^24 * 2^d, and n < 2^32
                lemma_fundamental_div_mod(n as int, pow2(d as nat) as int);
                assert(pow2(d as nat) * kept >= pow2(d as nat) * 0x100_0000) by (nonlinear_arith)
                    requires
                        kept >= 0x100_0000,
                        pow2(d as nat) >= 1,
                ;
                assert((n as int) % (pow2(d as nat) as int) >= 0);
                assert(pow2(d as nat) * 0x100_0000 < 0x1_0000_0000);
                if d >= 8 {
                    if d > 8 {
                        lemma_pow2_strictly_increases(8, d as nat);
                    }
                    assert(pow2(d as nat) * 0x100_0000 >= 0x1_0000_0000) by (nonlinear_arith)
                        requires
                            pow2(d as nat) >= 0x100,
                    ;
                }
                assert(pow2((d + 1) as nat) * 0x100_0000 <= 0x1_0000_0000 || kept / 2 < 0x100_0000) by {
                    if kept / 2 >= 0x100_0000 {
                        assert(pow2(d as nat) * kept >= pow2(d as nat) * 0x200_0000) by (nonlinear_arith)
                            requires
                                kept >= 0x200_0000,
                                pow2(d as nat) >= 1,
                        ;
                        assert(pow2((d + 1) as nat) * 0x100_0000 == pow2(d as nat) * 0x200_0000) by (nonlinear_arith)
                            requires
                                pow2((d + 1) as nat) == 2 * pow2(d as nat),
                        ;
                    }
                }
            }
            kept = kept / 2;
            d = d + 1;
        }
        proof {
            assert(d >= 1);
        }
        let unit: u64 = power_of_two(d);
        let rest: u64 = (n as u64) % unit;
        let odd: bool = kept % 2 == 1;
        let up: u32 = if 2 * rest > unit || (2 * rest == unit && odd) {
            1
        } else {
            0
        };
        let bits: u32 = (150 + d) * 0x80_0000 + kept + up - 0x80_0000;
        let r = Single { bits };
        proof {
            assert(r.magnitude() == bits);
            assert(bits == (150 + d) * 0x80_0000 + (kept + up - 0x80_0000));
            lemma_fundamental_div_mod(n as int, unit as int);
            if kept + up == 0x100_0000 {
                assert(r.exponent_field() == 151 + d);
                assert(r.fraction_field() == 0);
                assert(r.exponent() == d + 1);
                assert(r.significand() == 0x80_0000);
                lemma_pow2_unfold((d + 1) as nat);
                assert(r.significand() * pow2((d + 1) as nat) == 0x100_0000 * pow2(d as nat)) by (nonlinear_arith)
                    requires
                        r.significand() == 0x80_0000,
                        pow2((d + 1) as nat) == 2 * pow2(d as nat),
                ;
                assert(0x100_0000 * pow2(d as nat) - n == unit - rest) by (nonlinear_arith)
                    requires
                        n == unit * kept + rest,
                        kept + 1 == 0x100_0000,
                        unit == pow2(d as nat),
                ;
                assert(pow2((d + 1) as nat) >= unit);
            } else {
                assert(r.exponent_field() == 150 + d);
                assert(r.fraction_field() == kept + up - 0x80_0000);
                assert(r.exponent() == d);
                assert(r.significand() == kept + up);
                assert((kept + up) * pow2(d as nat) - n == up * unit - rest) by (nonlinear_arith)
                    requires
                        n == unit * kept + rest,
                        unit == pow2(d as nat),
                ;
                if up == 1 {
                    assert(up * unit == unit) by (nonlinear_arith)
                        requires
                            up == 1,
                    ;
                } else {
                    assert(up * unit == 0) by (nonlinear_arith)
                        requires
                            up == 0,
                    ;
                }
            }
        }
        r
    }

    /// The larger of the two numbers, a NaN giving way to the other one.
    pub fn max(self, other: Single) -> (r: Single)
        ensures
            r == self.max_of(other),
    {
        if self.is_nan() {
            other
        } else if other.is_nan() {
            self
        } else if self.order_key() < other.order_key() {
            other
        } else {
            self
        }
    }

    /// The smaller of the two numbers, a NaN giving way to the other one.
    pub fn min(self, other: Single) -> (r: Single)
        ensures
            r == self.min_of(other),
    {
        if self.is_nan() {
            other
        } else if other.is_nan() {
            self
        } else if other.order_key() < self.order_key() {
            other
        } else {
            self
        }
    }
}

impl Double {
    /// The pattern with the sign bit cleared.
    pub open spec fn magnitude(self) -> int {
        if self.bits >= DOUBLE_SIGN {
            self.bits - DOUBLE_SIGN
        } else {
            self.bits as int
        }
    }

    /// Whether the sign bit is set.
    pub open spec fn negative(self) -> bool {
        self.bits >= DOUBLE_SIGN
    }

    /// Whether the pattern is a NaN.
    pub open spec fn nan(self) -> bool {
        self.magnitude() > DOUBLE_INFINITY
    }

    /// The place of the number in the numerical order: of two patterns that are
    /// not NaN, the smaller number has the smaller key, and the two zeros share
    /// the key 0.
    pub open spec fn key(self) -> int {
        if self.negative() {
            -self.magnitude()
        } else {
            self.magnitude()
        }
    }

    /// Whether the pattern is an infinity.
    pub open spec fn infinite(self) -> bool {
        self.magnitude() == DOUBLE_INFINITY
    }

    /// Whether the pattern is a number: neither an infinity nor a NaN.
    pub open spec fn finite(self) -> bool {
        self.magnitude() < DOUBLE_INFINITY
    }

    /// The exponent field of the pattern: its 11 bits below the sign.
    pub open spec fn exponent_field(self) -> int {
        self.magnitude() / 0x10_0000_0000_0000
    }

    /// The fraction field of the pattern: its lowest 52 bits.
    pub open spec fn fraction_field(self) -> int {
        self.magnitude() % 0x10_0000_0000_0000
    }

    /// The significand of a finite number as an integer: the size of the
    /// number is `significand() * 2^exponent()`.
    pub open spec fn significand(self) -> int {
        if self.exponent_field() == 0 {
            self.fraction_field()
        } else {
            0x10_0000_0000_0000 + self.fraction_field()
        }
    }

    /// The power of two that the significand of a finite number counts.
    pub open spec fn exponent(self) -> int {
        if self.exponent_field() == 0 {
            -1074
        } else {
            self.exponent_field() - 1075
        }
    }

    /// The size of a finite number, counted in units of 2^-1074, the smallest
    /// size that double precision has.
    pub open spec fn size(self) -> int {
        self.significand() * pow2((self.exponent() + 1074) as nat)
    }

    /// The pattern of the nearest number in single precision, without its
    /// sign. An infinity gives the infinity. A number is rounded to the digits
    /// that single precision has for its size, a tie going to the even
    /// neighbor; the greatest numbers are rounded to the infinity.
    pub open spec fn narrowed_magnitude(self) -> int {
        let m = self.significand() as nat;
        let e = self.exponent();
        if self.infinite() || e >= 76 {
            SINGLE_INFINITY as int
        } else if e >= -178 {
            (e + 178) * 0x80_0000 + halved_to_nearest(m, 29)
        } else {
            halved_to_nearest(m, (-149 - e) as nat) as int
        }
    }

    /// The nearest number in single precision. A NaN gives a NaN.
    pub open spec fn narrowed(self) -> Single {
        if self.nan() {
            Single { bits: 0x7fc0_0000 }
        } else {
            Single {
                bits: (if self.negative() {
                    SINGLE_SIGN + self.narrowed_magnitude()
                } else {
                    self.narrowed_magnitude()
                }) as u32,
            }
        }
    }

    /// The pattern of the unsigned integer `n` in double precision, which has
    /// every such integer of 32 bits.
    pub open spec fn of_u32(n: u32) -> Double {
        if n == 0 {
            Double { bits: 0 }
        } else {
            let s = doublings(n as int, 0x10_0000_0000_0000);
            Double { bits: ((1075 - s) * 0x10_0000_0000_0000 + n * pow2(s) - 0x10_0000_0000_0000) as u64 }
        }
    }

    /// The comparison `<` of the two numbers: false when either is a NaN.
    pub open spec fn lt(self, other: Double) -> bool {
        !self.nan() && !other.nan() && self.key() < other.key()
    }

    /// The comparison `<=` of the two numbers: false when either is a NaN.
    pub open spec fn le(self, other: Double) -> bool {
        !self.nan() && !other.nan() && self.key() <= other.key()
    }

    /// The comparison `==` of the two numbers: false when either is a NaN, true
    /// of the two zeros.
    pub open spec fn same(self, other: Double) -> bool {
        !self.nan() && !other.nan() && self.key() == other.key()
    }

    /// The larger of the two numbers, a NaN giving way to the other operand.
    /// Of two equal numbers it is the first.
    pub open spec fn max_of(self, other: Double) -> Double {
        if self.nan() {
            other
        } else if other.nan() {
            self
        } else if self.key() < other.key() {
            other
        } else {
            self
        }
    }

    /// The smaller of the two numbers, a NaN giving way to the other operand.
    /// Of two equal numbers it is the first.
    pub open spec fn min_of(self, other: Double) -> Double {
        if self.nan() {
            other
        } else if other.nan() {
            self
        } else if other.key() < self.key() {
            other
        } else {
            self
        }
    }

    /// The number with the given bit pattern.
    pub fn from_bits(bits: u64) -> (r: Double)
        ensures
            r.bits == bits,
    {
        Double { bits }
    }

    /// The bit pattern of the number.
    pub fn to_bits(&self) -> (r: u64)
        ensures
            r == self.bits,
    {
        self.bits
    }

    /// Positive zero.
    pub fn zero() -> (r: Double)
        ensures
            r.bits == 0,
            r.key() == 0,
            !r.nan(),
    {
        Double { bits: 0 }
    }

    /// The unsigned integer `n` in double precision: a number that is not
    /// negative and has the size of `n`.
    pub fn from_u32(n: u32) -> (r: Double)
        ensures
            r == Double::of_u32(n),
            r.finite(),
            !r.negative(),
            r.exponent() <= 0,
            r.significand() == n * pow2((-r.exponent()) as nat),
    {
        proof {
            lemma2_to64();
            lemma2_to64_rest();
        }
        if n == 0 {
            proof {
                assert((Double { bits: 0 }).exponent() == -1074);
                assert((Double { bits: 0 }).significand() == 0);
                assert(0 == n * pow2(1074)) by (nonlinear_arith)
                    requires
                        n == 0,
                ;
            }
            return Double { bits: 0 };
        }
        let (m, s) = normalize(n as u64, 0x10_0000_0000_0000);
        let bits: u64 = (1075 - s) * 0x10_0000_0000_0000 + (m - 0x10_0000_0000_0000);
        let r = Double { bits };
        proof {
            assert(r.magnitude() == bits);
            assert(r.exponent_field() == 1075 - s);
            assert(r.fraction_field() == m - 0x10_0000_0000_0000);
        }
        r
    }

    /// Whether the sign bit is set.
    pub fn is_negative(&self) -> (r: bool)
        ensures
            r == self.negative(),
    {
        self.bits >= DOUBLE_SIGN
    }

    /// Whether the pattern is an infinity.
    pub fn is_infinite(&self) -> (r: bool)
        ensures
            r == self.infinite(),
    {
        self.bits == DOUBLE_INFINITY || self.bits == 0xfff0_0000_0000_0000
    }

    /// The significand and the exponent of a finite number: the size of the
    /// number is the significand times two to the power of the exponent.
    pub fn parts(&self) -> (r: (u64, i32))
        requires
            self.finite(),
        ensures
            r.0 == self.significand(),
            r.1 == self.exponent(),
            r.0 < 0x20_0000_0000_0000,
            -1074 <= r.1 <= 971,
    {
        let mag: u64 = if self.bits >= DOUBLE_SIGN {
            self.bits - DOUBLE_SIGN
        } else {
            self.bits
        };
        let e: u64 = mag / 0x10_0000_0000_0000;
        let f: u64 = mag % 0x10_0000_0000_0000;
        if e == 0 {
            (f, -1074)
        } else {
            (0x10_0000_0000_0000 + f, (e as i32) - 1075)
        }
    }

    /// The nearest number in single precision: see [`Double::narrowed`].
    pub fn narrow(self) -> (r: Single)
        ensures
            r == self.narrowed(),
            r.nan() == self.nan(),
            !self.nan() ==> r.negative() == self.negative(),
            self.infinite() ==> r.infinite(),
    {
        if self.is_nan() {
            return Single { bits: 0x7fc0_0000 };
        }
        let negative: bool = self.bits >= DOUBLE_SIGN;
        let mag: u32 = if self.is_infinite() {
            SINGLE_INFINITY
        } else {
            let (m, e) = self.parts();
            proof {
                lemma2_to64();
                lemma2_to64_rest();
            }
            if e >= 76 {
                SINGLE_INFINITY
            } else if e >= -178 {
                let q: u64 = round_shift(m, 29);
                proof {
                    lemma_halved_bound(m as nat, 29);
                    assert(pow2(29) == 0x2000_0000);
                    assert(q * 0x2000_0000 <= 0x20_0000_0000_0000);
                    assert(q <= 0x100_0000);
                }
                (((e + 178) as u64) * 0x80_0000 + q) as u32
            } else {
                let k: u32 = (-149 - e) as u32;
                let q: u64 = round_shift(m, k);
                proof {
                    lemma_halved_bound(m as nat, k as nat);
                    if k > 30 {
                        lemma_pow2_strictly_increases(30, k as nat);
                    }
                    assert(pow2(30) == 0x4000_0000);
                    if k <= 53 {
                        assert(q <= 0x80_0000) by (nonlinear_arith)
                            requires
                                q * pow2(k as nat) <= 0x20_0000_0000_0000,
                                pow2(k as nat) >= 0x4000_0000,
                        ;
                    }
                }
                q as u32
            }
        };
        Single {
            bits: if negative {
                SINGLE_SIGN + mag
            } else {
                mag
            },
        }
    }

    /// Whether the pattern is a NaN.
    pub fn is_nan(&self) -> (r: bool)
        ensures
            r == self.nan(),
    {
        if self.bits >= DOUBLE_SIGN {
            self.bits - DOUBLE_SIGN > DOUBLE_INFINITY
        } else {
            self.bits > DOUBLE_INFINITY
        }
    }

    /// The place of the number in the numerical order: see `key`.
    pub fn order_key(&self) -> (k: i64)
        ensures
            k == self.key(),
    {
        if self.bits >= DOUBLE_SIGN {
            let m: u64 = self.bits - DOUBLE_SIGN;
            -(m as i64)
        } else {
            self.bits as i64
        }
    }

    /// The comparison `<`: false when either number is a NaN.
    pub fn is_lt(&self, other: &Double) -> (r: bool)
        ensures
            r == self.lt(*other),
    {
        !self.is_nan() && !other.is_nan() && self.order_key() < other.order_key()
    }

    /// The comparison `<=`: false when either number is a NaN.
    pub fn is_le(&self, other: &Double) -> (r: bool)
        ensures
            r == self.le(*other),
    {
        !self.is_nan() && !other.is_nan() && self.order_key() <= other.order_key()
    }

    /// The comparison `>`: false when either number is a NaN.
    pub fn is_gt(&self, other: &Double) -> (r: bool)
        ensures
            r == other.lt(*self),
    {
        other.is_lt(self)
    }

    /// The comparison `>=`: false when either number is a NaN.
    pub fn is_ge(&self, other: &Double) -> (r: bool)
        ensures
            r == other.le(*self),
    {
        other.is_le(self)
    }

    /// The comparison `==`: false when either number is a NaN, true of the
    /// two zeros.
    pub fn is_same(&self, other: &Double) -> (r: bool)
        ensures
            r == self.same(*other),
    {
        !self.is_nan() && !other.is_nan() && self.order_key() == other.order_key()
    }

    /// The larger of the two numbers, a NaN giving way to the other one.
    pub fn max(self, other: Double) -> (r: Double)
        ensures
            r == self.max_of(other),
    {
        if self.is_nan() {
            other
        } else if other.is_nan() {
            self
        } else if self.order_key() < other.order_key() {
            other
        } else {
            self
        }
    }

    /// The smaller of the two numbers, a NaN giving way to the other one.
    pub fn min(self, other: Double) -> (r: Double)
        ensures
            r == self.min_of(other),
    {
        if self.is_nan() {
            other
        } else if other.is_nan() {
            self
        } else if other.order_key() < self.order_key() {
            other
        } else {
            self
        }
    }
}

} // verus!
