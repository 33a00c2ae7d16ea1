//! Texts of bounded width for integers and times.

use vstd::prelude::*;
use vstd::string::*;

verus! {

/// The clamp for times: 99 hours, 59 minutes and 59 seconds, in seconds.
pub const MAX_TIME_SECS: u64 = 359_999;

/// A span of time: whole seconds, and the nanoseconds past the last of them.
#[derive(Clone, Copy, Debug, PartialEq, Eq, Structural)]
pub struct TimeSpan {
    pub secs: u64,
    pub nanos: u32,
}

/// The character of a decimal digit.
pub open spec fn digit(d: int) -> char {
    if d == 0 {
        '0'
    } else if d == 1 {
        '1'
    } else if d == 2 {
        '2'
    } else if d == 3 {
        '3'
    } else if d == 4 {
        '4'
    } else if d == 5 {
        '5'
    } else if d == 6 {
        '6'
    } else if d == 7 {
        '7'
    } else if d == 8 {
        '8'
    } else {
        '9'
    }
}

/// Ten to the power `e`.
pub open spec fn pow10(e: nat) -> nat
    decreases e,
{
    if e == 0 {
        1
    } else {
        10 * pow10((e - 1) as nat)
    }
}

/// The decimal digits of `n`, without leading zeros.
pub open spec fn decimal(n: nat) -> Seq<char>
    decreases n,
{
    if n < 10 {
        seq![digit(n as int)]
    } else {
        decimal(n / 10).push(digit((n % 10) as int))
    }
}

/// The decimal text of an integer, with a minus sign in front of a negative
/// one.
pub open spec fn signed_decimal(n: int) -> Seq<char> {
    if n < 0 {
        seq!['-'] + decimal((-n) as nat)
    } else {
        decimal(n as nat)
    }
}

/// `count` copies of a character.
pub open spec fn repeated(c: char, count: nat) -> Seq<char> {
    Seq::new(count, |i: int| c)
}

/// The decimal digits of `n`, with zeros in front up to `width` characters. A
/// number of more digits is not cut.
pub open spec fn zero_padded(n: nat, width: nat) -> Seq<char> {
    if decimal(n).len() >= width {
        decimal(n)
    } else {
        repeated('0', (width - decimal(n).len()) as nat) + decimal(n)
    }
}

/// The number of digits that a negative integer may take, its sign aside.
pub open spec fn negative_budget(digits: u8) -> nat {
    if digits < 2 {
        1
    } else {
        (digits - 1) as nat
    }
}

/// The number of digits that an integer may take that is not negative.
pub open spec fn digit_budget(digits: u8) -> nat {
    if digits < 1 {
        1
    } else {
        digits as nat
    }
}

/// The integer that is shown for `value` in a column of `digits` characters:
/// a value of too many digits becomes the one of all nines, with the sign of
/// the value. A negative value has one character less, for its sign.
pub open spec fn clamped_int(digits: u8, value: int) -> int {
    if value < 0 {
        if -value >= pow10(negative_budget(digits)) {
            -(pow10(negative_budget(digits)) - 1)
        } else {
            value
        }
    } else {
        if value >= pow10(digit_budget(digits)) {
            pow10(digit_budget(digits)) - 1
        } else {
            value
        }
    }
}

/// The fraction of a second as it is shown: nothing for a precision of 0,
/// otherwise a point and the first `precision` decimal places of the
/// nanoseconds. Of the nanoseconds there are nine places: for a greater
/// precision the zeros that fill the width stand in front of them.
pub open spec fn fraction_text(precision: u8, nanos: u32) -> Seq<char> {
    if precision == 0 {
        Seq::<char>::empty()
    } else {
        let places: nat = if precision < 9 {
            precision as nat
        } else {
            9
        };
        seq!['.'] + zero_padded((nanos as nat) / pow10((9 - places) as nat), precision as nat)
    }
}

/// A time of day or a duration as text: hours, minutes and seconds, each
/// reduced to its range, and the fraction. The hours are left out when they
/// are zero, and the minutes too when both are zero. Minutes and seconds that
/// follow another field have two digits.
pub open spec fn hms_text(precision: u8, h: u32, m: u32, s: u32, nanos: u32) -> Seq<char> {
    let hrs = (h % 100) as nat;
    let mins = (m % 60) as nat;
    let secs = (s % 60) as nat;
    let whole = if hrs > 0 {
        decimal(hrs) + seq![':'] + zero_padded(mins, 2) + seq![':'] + zero_padded(secs, 2)
    } else if mins > 0 {
        decimal(mins) + seq![':'] + zero_padded(secs, 2)
    } else {
        decimal(secs)
    };
    whole + fraction_text(precision, nanos)
}

/// The text of the clamp for times, with a fraction of all nines.
pub open spec fn max_time_text(precision: u8) -> Seq<char> {
    let whole = seq!['9', '9', ':', '5', '9', ':', '5', '9'];
    if precision == 0 {
        whole
    } else {
        whole + seq!['.'] + repeated('9', precision as nat)
    }
}

/// A span of time as text: the clamp from 99:59:59 on, the hours, minutes and
/// seconds of the span below that.
pub open spec fn time_text(precision: u8, value: TimeSpan) -> Seq<char> {
    if value.secs >= MAX_TIME_SECS {
        max_time_text(precision)
    } else {
        hms_text(
            precision,
            (value.secs / 3600) as u32,
            (value.secs / 60) as u32,
            value.secs as u32,
            value.nanos,
        )
    }
}

/// Powers of ten grow with the exponent.
pub proof fn lemma_pow10_grows(a: nat, b: nat)
    requires
        a <= b,
    ensures
        0 < pow10(a) <= pow10(b),
    decreases b,
{
    if b == 0 {
    } else if a == b {
        lemma_pow10_grows((a - 1) as nat, (b - 1) as nat);
    } else {
        lemma_pow10_grows(a, (b - 1) as nat);
    }
}

/// A number below ten to the power `d` has at most `d` digits.
pub proof fn lemma_decimal_len(n: nat, d: nat)
    requires
        d >= 1,
        n < pow10(d),
    ensures
        1 <= decimal(n).len() <= d,
    decreases n,
{
    if n < 10 {
    } else {
        if d == 1 {
            assert(pow10(1) == 10) by {
                assert(pow10(0) == 1);
            }
        } else {
            assert(n / 10 < pow10((d - 1) as nat));
            lemma_decimal_len(n / 10, (d - 1) as nat);
        }
    }
}

/// The text of a clamped integer fits its column: `digits` characters, the
/// sign among them, and never less than one digit.
pub proof fn lemma_clamped_int_width(digits: u8, value: int)
    ensures
        value >= 0 ==> signed_decimal(clamped_int(digits, value)).len() <= digit_budget(digits),
        value < 0 ==> signed_decimal(clamped_int(digits, value)).len() <= negative_budget(digits) + 1,
{
    if value < 0 {
        let b = negative_budget(digits);
        lemma_pow10_grows(0, b);
        let shown = clamped_int(digits, value);
        assert(shown < 0);
        lemma_decimal_len((-shown) as nat, b);
    } else {
        let b = digit_budget(digits);
        lemma_pow10_grows(0, b);
        let shown = clamped_int(digits, value);
        lemma_decimal_len(shown as nat, b);
    }
}

/// The text of one decimal digit.
pub(crate) fn digit_str(d: u64) -> (s: &'static str)
    requires
        d < 10,
    ensures
        s@ == seq![digit(d as int)],
{
    proof {
        reveal_strlit("0");
        reveal_strlit("1");
        reveal_strlit("2");
        reveal_strlit("3");
        reveal_strlit("4");
        reveal_strlit("5");
        reveal_strlit("6");
        reveal_strlit("7");
        reveal_strlit("8");
        reveal_strlit("9");
    }
    let s: &'static str = if d == 0 {
        "0"
    } else if d == 1 {
        "1"
    } else if d == 2 {
        "2"
    } else if d == 3 {
        "3"
    } else if d == 4 {
        "4"
    } else if d == 5 {
        "5"
    } else if d == 6 {
        "6"
    } else if d == 7 {
        "7"
    } else if d == 8 {
        "8"
    } else {
        "9"
    };
    assert(s@ =~= seq![digit(d as int)]);
    s
}

/// Appends the decimal digits of `n`.
fn push_decimal(out: &mut String, n: u64)
    ensures
        final(out)@ == old(out)@ + decimal(n as nat),
    decreases n,
{
    if n >= 10 {
        push_decimal(out, n / 10);
    }
    out.append(digit_str(n % 10));
    proof {
        if n >= 10 {
            assert(old(out)@ + decimal((n / 10) as nat) + seq![digit((n % 10) as int)] =~= old(out)@ + decimal(
                n as nat,
            ));
        } else {
            assert(old(out)@ + seq![digit((n % 10) as int)] =~= old(out)@ + decimal(n as nat));
        }
    }
}

/// The number of decimal digits of `n`.
fn count_digits(n: u64) -> (c: usize)
    ensures
        c == decimal(n as nat).len(),
        1 <= c <= 20,
    decreases n,
{
    if n >= 10 {
        let c: usize = count_digits(n / 10);
        proof {
            assert(n < pow10(20)) by {
                lemma_pow10_is(20);
            }
            lemma_decimal_len(n as nat, 20);
        }
        c + 1
    } else {
        1
    }
}

/// The first powers of ten.
proof fn lemma_pow10_is(e: nat)
    requires
        e <= 20,
    ensures
        e == 0 ==> pow10(e) == 1,
        e == 1 ==> pow10(e) == 10,
        e == 2 ==> pow10(e) == 100,
        e == 3 ==> pow10(e) == 1_000,
        e == 9 ==> pow10(e) == 1_000_000_000,
        e == 18 ==> pow10(e) == 1_000_000_000_000_000_000,
        e == 19 ==> pow10(e) == 10_000_000_000_000_000_000,
        e == 20 ==> pow10(e) == 100_000_000_000_000_000_000,
{
    reveal_with_fuel(pow10, 21);
}

/// Appends `count` copies of the one character of `unit`.
pub(crate) fn push_repeated(out: &mut String, unit: &str, count: usize)
    requires
        unit@.len() == 1,
    ensures
        final(out)@ == old(out)@ + repeated(unit@[0], count as nat),
{
    let mut i: usize = 0;
    while i < count
        invariant
            i <= count,
            unit@.len() == 1,
            out@ == old(out)@ + repeated(unit@[0], i as nat),
        decreases count - i,
    {
        out.append(unit);
        proof {
            assert(old(out)@ + repeated(unit@[0], i as nat) + unit@ =~= old(out)@ + repeated(
                unit@[0],
                (i + 1) as nat,
            ));
        }
        i = i + 1;
    }
}

/// Appends the decimal digits of `n`, with zeros in front up to `width`
/// characters.
fn push_zero_padded(out: &mut String, n: u64, width: usize)
    ensures
        final(out)@ == old(out)@ + zero_padded(n as nat, width as nat),
{
    let len: usize = count_digits(n);
    if len < width {
        proof {
            reveal_strlit("0");
        }
        push_repeated(out, "0", width - len);
    }
    push_decimal(out, n);
    proof {
        if len < width {
            assert(old(out)@ + repeated('0', (width - len) as nat) + decimal(n as nat) =~= old(out)@
                + zero_padded(n as nat, width as nat));
        }
    }
}

/// Ten to the power `e`, if it is at most `u64::MAX`.
fn pow10_checked(e: u8) -> (r: Option<u64>)
    ensures
        r matches Some(p) ==> p == pow10(e as nat),
        r is None ==> pow10(e as nat) > u64::MAX,
{
    let mut p: u64 = 1;
    let mut i: u8 = 0;
    while i < e
        invariant
            i <= e,
            p == pow10(i as nat),
        decreases e - i,
    {
        if p > u64::MAX / 10 {
            proof {
                lemma_pow10_grows((i + 1) as nat, e as nat);
            }
            return None;
        }
        p = p * 10;
        i = i + 1;
    }
    Some(p)
}

/// Formats an integer for a column of `digits` characters.
///
/// A value of more digits than fit is shown as all nines. A negative value
/// has one character less for its digits, the sign taking the other; its
/// column holds two characters at least, any other column one.
pub fn format_pretty_int(digits: u8, value: i64) -> (r: String)
    ensures
        r@ == signed_decimal(clamped_int(digits, value as int)),
        value >= 0 ==> 1 <= r@.len() <= digit_budget(digits),
        value < 0 ==> 2 <= r@.len() <= negative_budget(digits) + 1,
{
    let mut out: String = String::new();
    proof {
        lemma_clamped_int_width(digits, value as int);
    }
    if value < 0 {
        let budget: u8 = if digits < 2 {
            1
        } else {
            digits - 1
        };
        let size: u64 = if value == i64::MIN {
            0x8000_0000_0000_0000
        } else {
            (-value) as u64
        };
        proof {
            lemma_pow10_grows(0, budget as nat);
        }
        let shown: u64 = match pow10_checked(budget) {
            Some(max) => if size >= max {
                max - 1
            } else {
                size
            },
            None => size,
        };
        proof {
            reveal_strlit("-");
            assert("-"@ =~= seq!['-']);
        }
        out.append("-");
        push_decimal(&mut out, shown);
        proof {
            assert(out@ =~= seq!['-'] + decimal(shown as nat));
            assert(clamped_int(digits, value as int) == -(shown as int));
        }
    } else {
        let budget: u8 = if digits < 1 {
            1
        } else {
            digits
        };
        let size: u64 = value as u64;
        proof {
            lemma_pow10_grows(0, budget as nat);
        }
        let shown: u64 = match pow10_checked(budget) {
            Some(max) => if size >= max {
                max - 1
            } else {
                size
            },
            None => size,
        };
        push_decimal(&mut out, shown);
        proof {
            assert(out@ =~= decimal(shown as nat));
        }
    }
    out
}

/// Appends the fraction of a second.
fn push_fraction(out: &mut String, precision: u8, nanos: u32)
    ensures
        final(out)@ == old(out)@ + fraction_text(precision, nanos),
{
    if precision > 0 {
        let places: u8 = if precision < 9 {
            precision
        } else {
            9
        };
        let unit: u64 = match pow10_checked(9 - places) {
            Some(p) => p,
            None => {
                proof {
                    lemma_pow10_grows((9 - places) as nat, 9);
                    lemma_pow10_is(9);
                }
                1
            },
        };
        proof {
            lemma_pow10_grows(0, (9 - places) as nat);
            reveal_strlit(".");
            assert("."@ =~= seq!['.']);
        }
        out.append(".");
        push_zero_padded(out, (nanos as u64) / unit, precision as usize);
        proof {
            assert(out@ =~= old(out)@ + fraction_text(precision, nanos));
        }
    } else {
        proof {
            assert(out@ =~= old(out)@ + fraction_text(precision, nanos));
        }
    }
}

/// Formats a time given as hours, minutes, seconds and nanoseconds.
///
/// The text is `H:MM:SS`, then a point and `precision` decimal places if the
/// precision is not 0. Hours that are zero are left out, and minutes too when
/// both are zero. Hours are taken modulo 100, minutes and seconds modulo 60.
pub fn format_pretty_time_hms(precision: u8, h: u32, m: u32, s: u32, nanos: u32) -> (r: String)
    ensures
        r@ == hms_text(precision, h, m, s, nanos),
{
    let hrs: u32 = h % 100;
    let mins: u32 = m % 60;
    let secs: u32 = s % 60;
    let mut out: String = String::new();
    proof {
        reveal_strlit(":");
        assert(":"@ =~= seq![':']);
    }
    if hrs > 0 {
        push_decimal(&mut out, hrs as u64);
        out.append(":");
        push_zero_padded(&mut out, mins as u64, 2);
        out.append(":");
        push_zero_padded(&mut out, secs as u64, 2);
        proof {
            assert(out@ =~= decimal(hrs as nat) + seq![':'] + zero_padded(mins as nat, 2) + seq![':']
                + zero_padded(secs as nat, 2));
        }
    } else if mins > 0 {
        push_decimal(&mut out, mins as u64);
        out.append(":");
        push_zero_padded(&mut out, secs as u64, 2);
        proof {
            assert(out@ =~= decimal(mins as nat) + seq![':'] + zero_padded(secs as nat, 2));
        }
    } else {
        push_decimal(&mut out, secs as u64);
        proof {
            assert(out@ =~= decimal(secs as nat));
        }
    }
    push_fraction(&mut out, precision, nanos);
    out
}

/// Formats a span of time as [`format_pretty_time_hms`] does. From 99 hours,
/// 59 minutes and 59 seconds on, the text is `99:59:59`, with a fraction of
/// all nines if the precision is not 0.
pub fn format_pretty_time(precision: u8, value: TimeSpan) -> (r: String)
    ensures
        r@ == time_text(precision, value),
{
    if value.secs >= MAX_TIME_SECS {
        let mut out: String = String::new();
        proof {
            reveal_strlit("99:59:59");
            reveal_strlit(".");
            reveal_strlit("9");
            assert("99:59:59"@ =~= seq!['9', '9', ':', '5', '9', ':', '5', '9']);
            assert("."@ =~= seq!['.']);
        }
        out.append("99:59:59");
        if precision > 0 {
            out.append(".");
            push_repeated(&mut out, "9", precision as usize);
        }
        proof {
            assert(out@ =~= max_time_text(precision));
        }
        out
    } else {
        let secs: u32 = value.secs as u32;
        format_pretty_time_hms(precision, secs / 3600, secs / 60, secs, value.nanos)
    }
}

} // verus!
