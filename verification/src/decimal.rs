//! Decimal digits of numbers of any size.
//!
//! The decimal expansion of a floating-point number can have hundreds of
//! digits. This module holds the natural numbers of any size that are needed
//! to write it out exactly, and what is proved of decimal texts.

use vstd::prelude::*;
use crate::format::{decimal, digit, pow10, repeated, zero_padded, lemma_decimal_len, lemma_pow10_grows};

verus! {

/// The base of the limbs of a [`Big`]: each limb holds nine decimal digits.
pub const BASE: u32 = 1_000_000_000;

/// The number that limbs stand for, the lowest limb first.
pub open spec fn limbs_value(limbs: Seq<u32>) -> nat
    decreases limbs.len(),
{
    if limbs.len() == 0 {
        0
    } else {
        limbs[0] as nat + BASE as nat * limbs_value(limbs.drop_first())
    }
}

/// Every limb lies below the base.
pub open spec fn limbs_ok(limbs: Seq<u32>) -> bool {
    forall|i: int| 0 <= i < limbs.len() ==> #[trigger] limbs[i] < BASE
}

/// The number of limbs with one more limb on top.
pub proof fn lemma_value_push(limbs: Seq<u32>, top: u32)
    ensures
        limbs_value(limbs.push(top)) == limbs_value(limbs) + top * pow_base(limbs.len()),
    decreases limbs.len(),
{
    if limbs.len() == 0 {
        assert(limbs.push(top).drop_first() =~= Seq::<u32>::empty());
        assert(limbs_value(Seq::<u32>::empty()) == 0);
        assert(top * pow_base(0) == top) by (nonlinear_arith)
            requires
                pow_base(0) == 1,
        ;
    } else {
        let rest = limbs.drop_first();
        lemma_value_push(rest, top);
        assert(limbs.push(top).drop_first() =~= rest.push(top));
        assert(pow_base(limbs.len()) == BASE * pow_base(rest.len()));
        assert(BASE * (limbs_value(rest) + top * pow_base(rest.len())) == BASE * limbs_value(rest) + top * (BASE
            * pow_base(rest.len()))) by (nonlinear_arith);
    }
}

/// The base to the power `n`.
pub open spec fn pow_base(n: nat) -> nat
    decreases n,
{
    if n == 0 {
        1
    } else {
        BASE as nat * pow_base((n - 1) as nat)
    }
}

/// A number of at least ten to the power `d` has more than `d` digits.
pub proof fn lemma_decimal_long(n: nat, d: nat)
    requires
        n >= pow10(d),
    ensures
        decimal(n).len() > d,
    decreases d,
{
    if d > 0 {
        assert(pow10(d) == 10 * pow10((d - 1) as nat));
        lemma_pow10_grows(0, (d - 1) as nat);
        assert(n >= 10);
        assert(n / 10 >= pow10((d - 1) as nat));
        lemma_decimal_long(n / 10, (d - 1) as nat);
    }
}

/// A number below ten to the power `w` takes just `w` characters when it is
/// padded to `w`.
pub proof fn lemma_zero_padded_len(n: nat, w: nat)
    requires
        w >= 1,
        n < pow10(w),
    ensures
        zero_padded(n, w).len() == w,
{
    lemma_decimal_len(n, w);
}

/// Padding a number with one more digit at its end: the digit follows the
/// padded number.
pub proof fn lemma_zero_padded_push(n: nat, d: nat, w: nat)
    requires
        w >= 1,
        n < pow10(w),
        d < 10,
    ensures
        zero_padded(n * 10 + d, w + 1) == zero_padded(n, w).push(digit(d as int)),
{
    lemma_decimal_len(n, w);
    let m = n * 10 + d;
    assert(m / 10 == n);
    assert(m % 10 == d);
    if n == 0 {
        assert(decimal(m) =~= seq![digit(d as int)]);
        assert(decimal(0) =~= seq!['0']);
        assert(zero_padded(m, w + 1) =~= repeated('0', w) + seq![digit(d as int)]);
        assert(zero_padded(0, w) =~= repeated('0', w));
        assert(repeated('0', w).push(digit(d as int)) =~= repeated('0', w) + seq![digit(d as int)]);
    } else {
        assert(m >= 10);
        assert(decimal(m) == decimal(n).push(digit(d as int)));
        let len = decimal(n).len();
        if len >= w {
            assert(zero_padded(m, w + 1) =~= zero_padded(n, w).push(digit(d as int)));
        } else {
            assert(repeated('0', (w - len) as nat) + decimal(n).push(digit(d as int)) =~= (repeated(
                '0',
                (w - len) as nat,
            ) + decimal(n)).push(digit(d as int)));
        }
    }
}

/// The digits of a number that is made of a number that is not zero and `j`
/// more digits at its end: the digits of the first, and the second padded to
/// `j` digits.
pub proof fn lemma_decimal_concat(x: nat, y: nat, j: nat)
    requires
        x > 0,
        j >= 1,
        y < pow10(j),
    ensures
        decimal(x * pow10(j) + y) == decimal(x) + zero_padded(y, j),
    decreases j,
{
    if j == 1 {
        assert(pow10(1) == 10) by {
            assert(pow10(0) == 1);
        }
        let m = x * 10 + y;
        assert(m / 10 == x);
        assert(m % 10 == y);
        assert(decimal(y) =~= seq![digit(y as int)]);
        assert(zero_padded(y, 1) =~= seq![digit(y as int)]);
        assert(decimal(m) =~= decimal(x) + seq![digit(y as int)]);
    } else {
        let i = (j - 1) as nat;
        let head = y / 10;
        let last = y % 10;
        assert(pow10(j) == 10 * pow10(i));
        assert(head < pow10(i));
        lemma_decimal_concat(x, head, i);
        lemma_zero_padded_push(head, last, i);
        let inner = x * pow10(i) + head;
        lemma_pow10_grows(0, i);
        assert(x * pow10(i) >= 1) by (nonlinear_arith)
            requires
                x >= 1,
                pow10(i) >= 1,
        ;
        assert(x * pow10(j) + y == inner * 10 + last) by (nonlinear_arith)
            requires
                pow10(j) == 10 * pow10(i),
                y == head * 10 + last,
                inner == x * pow10(i) + head,
        ;
        let m = inner * 10 + last;
        assert(m / 10 == inner);
        assert(m % 10 == last);
        assert(m >= 10);
        assert(decimal(m) == decimal(inner).push(digit(last as int)));
        assert((decimal(x) + zero_padded(head, i)).push(digit(last as int)) =~= decimal(x) + zero_padded(
            head,
            i,
        ).push(digit(last as int)));
    }
}

/// The digits of a number, parted `p` digits from the end: in front stand the
/// digits of the number divided by ten to the power `p`, behind them the rest
/// of that division, padded to `p` digits.
pub proof fn lemma_decimal_split(n: nat, p: nat)
    requires
        p >= 1,
    ensures
        decimal(n).len() > p ==> decimal(n) == decimal(n / pow10(p)) + zero_padded(n % pow10(p), p)
            && zero_padded(n % pow10(p), p).len() == p,
        decimal(n).len() <= p ==> n / pow10(p) == 0 && n % pow10(p) == n,
{
    lemma_pow10_grows(0, p);
    let unit = pow10(p);
    if decimal(n).len() > p {
        if n < unit {
            lemma_decimal_len(n, p);
        }
        let x = n / unit;
        let y = n % unit;
        assert(n == unit * x + y) by {
            vstd::arithmetic::div_mod::lemma_fundamental_div_mod(n as int, unit as int);
        }
        assert(x >= 1) by {
            if x == 0 {
                assert(unit * x == 0) by (nonlinear_arith)
                    requires
                        x == 0,
                ;
            }
        }
        assert(x * unit == unit * x) by (nonlinear_arith);
        lemma_decimal_concat(x, y, p);
        lemma_zero_padded_len(y, p);
    } else {
        if n >= unit {
            lemma_decimal_long(n, p);
        }
        vstd::arithmetic::div_mod::lemma_basic_div(n as int, unit as int);
        vstd::arithmetic::div_mod::lemma_small_mod(n, unit);
    }
}

/// Limbs that agree from a place on stand for numbers that differ as their
/// lower limbs do.
pub proof fn lemma_value_rest(a: Seq<u32>, b: Seq<u32>, i: int)
    requires
        a.len() == b.len(),
        0 <= i <= a.len(),
        forall|j: int| i <= j < a.len() ==> a[j] == b[j],
    ensures
        limbs_value(a) - limbs_value(a.take(i)) == limbs_value(b) - limbs_value(b.take(i)),
    decreases a.len() - i,
{
    if i == a.len() {
        assert(a.take(i) =~= a);
        assert(b.take(i) =~= b);
    } else {
        lemma_value_rest(a, b, i + 1);
        lemma_value_push(a.take(i), a[i]);
        lemma_value_push(b.take(i), b[i]);
        assert(a.take(i + 1) =~= a.take(i).push(a[i]));
        assert(b.take(i + 1) =~= b.take(i).push(b[i]));
    }
}

/// Every digit lies below ten.
pub open spec fn digits_ok(digits: Seq<u8>) -> bool {
    forall|i: int| 0 <= i < digits.len() ==> #[trigger] digits[i] < 10
}

/// The characters of digits.
pub open spec fn digit_text(digits: Seq<u8>) -> Seq<char> {
    Seq::new(digits.len(), |i: int| digit(digits[i] as int))
}

/// Appends the decimal digits of `n`.
fn push_digits(out: &mut Vec<u8>, n: u32)
    requires
        digits_ok(old(out)@),
    ensures
        digits_ok(final(out)@),
        digit_text(final(out)@) == digit_text(old(out)@) + decimal(n as nat),
    decreases n,
{
    if n >= 10 {
        push_digits(out, n / 10);
    }
    let ghost before = out@;
    out.push((n % 10) as u8);
    proof {
        assert(digit_text(out@) =~= digit_text(before).push(digit((n % 10) as int)));
        if n >= 10 {
            assert(digit_text(old(out)@) + decimal((n / 10) as nat) + seq![digit((n % 10) as int)] =~= digit_text(
                old(out)@,
            ) + decimal(n as nat));
        } else {
            assert(digit_text(old(out)@) + seq![digit((n % 10) as int)] =~= digit_text(old(out)@) + decimal(
                n as nat,
            ));
        }
    }
}

/// Appends the decimal digits of `n`, with zeros in front up to `width`
/// digits.
fn push_padded_digits(out: &mut Vec<u8>, n: u32, width: u32)
    requires
        digits_ok(old(out)@),
        width >= 1,
        n < pow10(width as nat),
    ensures
        digits_ok(final(out)@),
        digit_text(final(out)@) == digit_text(old(out)@) + zero_padded(n as nat, width as nat),
    decreases width,
{
    if width > 1 {
        proof {
            assert(pow10(width as nat) == 10 * pow10((width - 1) as nat));
        }
        push_padded_digits(out, n / 10, width - 1);
    }
    let ghost before = out@;
    out.push((n % 10) as u8);
    proof {
        assert(digit_text(out@) =~= digit_text(before).push(digit((n % 10) as int)));
        if width > 1 {
            lemma_zero_padded_push((n / 10) as nat, (n % 10) as nat, (width - 1) as nat);
            assert((digit_text(old(out)@) + zero_padded((n / 10) as nat, (width - 1) as nat)).push(
                digit((n % 10) as int),
            ) =~= digit_text(old(out)@) + zero_padded((n / 10) as nat, (width - 1) as nat).push(
                digit((n % 10) as int),
            ));
        } else {
            assert(pow10(1) == 10) by {
                assert(pow10(0) == 1);
            }
            assert(zero_padded(n as nat, 1) =~= seq![digit(n as int)]);
            assert(digit_text(old(out)@).push(digit((n % 10) as int)) =~= digit_text(old(out)@) + seq![
                digit(n as int),
            ]);
        }
    }
}

/// Limbs of zero on top do not change the number.
pub proof fn lemma_value_zero_top(limbs: Seq<u32>, t: int)
    requires
        0 <= t <= limbs.len(),
        forall|j: int| t <= j < limbs.len() ==> limbs[j] == 0,
    ensures
        limbs_value(limbs) == limbs_value(limbs.take(t)),
    decreases limbs.len() - t,
{
    if t == limbs.len() {
        assert(limbs.take(t) =~= limbs);
    } else {
        lemma_value_zero_top(limbs, t + 1);
        lemma_value_push(limbs.take(t), limbs[t]);
        assert(limbs.take(t + 1) =~= limbs.take(t).push(limbs[t]));
        assert(0 * pow_base(t as nat) == 0) by (nonlinear_arith);
    }
}

/// The base is ten to the power nine.
pub proof fn lemma_base_is_pow10()
    ensures
        pow10(9) == BASE,
{
    reveal_with_fuel(pow10, 10);
}

/// A natural number of any size.
#[derive(Debug)]
pub struct Big {
    limbs: Vec<u32>,
}

impl View for Big {
    type V = nat;

    closed spec fn view(&self) -> nat {
        limbs_value(self.limbs@)
    }
}

impl Big {
    /// Whether the number is well formed: each of its limbs lies below the
    /// base.
    pub closed spec fn wf(&self) -> bool {
        limbs_ok(self.limbs@)
    }

    /// The number `n`.
    pub fn from_u64(n: u64) -> (r: Big)
        ensures
            r.wf(),
            r@ == n,
    {
        let base: u64 = 1_000_000_000;
        let low: u32 = (n % base) as u32;
        let rest: u64 = n / base;
        let mid: u32 = (rest % base) as u32;
        let high: u32 = (rest / base) as u32;
        let mut limbs: Vec<u32> = Vec::new();
        limbs.push(low);
        limbs.push(mid);
        limbs.push(high);
        proof {
            let s = limbs@;
            assert(s.drop_first().drop_first().drop_first() =~= Seq::<u32>::empty());
            assert(s.drop_first()[0] == mid);
            assert(s.drop_first().drop_first()[0] == high);
            assert(limbs_value(s.drop_first().drop_first().drop_first()) == 0);
            assert(limbs_value(s.drop_first().drop_first()) == high);
            assert(limbs_value(s.drop_first()) == mid + BASE * high);
            assert(limbs_value(s) == low + BASE * (mid + BASE * high));
            assert(rest == mid + base * high);
            assert(n == low + base * rest);
        }
        Big { limbs }
    }

    /// Multiplies the number by a small factor.
    pub fn times(&mut self, factor: u32)
        requires
            old(self).wf(),
            factor <= 16,
        ensures
            final(self).wf(),
            final(self)@ == old(self)@ * factor,
    {
        let mut carry: u64 = 0;
        let mut i: usize = 0;
        let n: usize = self.limbs.len();
        let ghost before = self.limbs@;
        proof {
            assert(before.take(0) =~= Seq::<u32>::empty());
            assert(limbs_value(before.take(0)) == 0);
            assert(limbs_value(before.take(0)) * factor == 0) by (nonlinear_arith)
                requires
                    limbs_value(before.take(0)) == 0,
            ;
            assert(carry * pow_base(0) == 0) by (nonlinear_arith)
                requires
                    carry == 0,
            ;
        }
        while i < n
            invariant
                i <= n,
                n == before.len(),
                self.limbs@.len() == n,
                limbs_ok(before),
                factor <= 16,
                carry <= 16,
                limbs_ok(self.limbs@.take(i as int)),
                forall|j: int| i <= j < n ==> self.limbs@[j] == before[j],
                limbs_value(self.limbs@.take(i as int)) + carry * pow_base(i as nat) == limbs_value(
                    before.take(i as int),
                ) * factor,
            decreases n - i,
        {
            let limb: u64 = self.limbs[i] as u64;
            let ghost done = self.limbs@.take(i as int);
            assert(before[i as int] < BASE);
            assert(limb * factor <= 999_999_999 * 16) by (nonlinear_arith)
                requires
                    limb <= 999_999_999,
                    factor <= 16,
            ;
            let product: u64 = limb * (factor as u64) + carry;
            let low: u32 = (product % 1_000_000_000) as u32;
            let next: u64 = product / 1_000_000_000;
            proof {
                assert(product <= 16 * 999_999_999 + 16);
                assert(next <= 16);
                let was = before.take(i as int);
                lemma_value_push(done, low);
                lemma_value_push(was, before[i as int]);
                assert(before.take(i + 1) =~= was.push(before[i as int]));
                assert(pow_base((i + 1) as nat) == BASE * pow_base(i as nat));
                assert(product == low + next * BASE);
                assert((limbs_value(was) + before[i as int] * pow_base(i as nat)) * factor == limbs_value(was)
                    * factor + (before[i as int] * factor) * pow_base(i as nat)) by (nonlinear_arith);
                assert((low + next * BASE) * pow_base(i as nat) == low * pow_base(i as nat) + next * (BASE
                    * pow_base(i as nat))) by (nonlinear_arith);
                assert((before[i as int] * factor + carry) * pow_base(i as nat) == (before[i as int] * factor)
                    * pow_base(i as nat) + carry * pow_base(i as nat)) by (nonlinear_arith);
            }
            self.limbs[i] = low;
            proof {
                let done_next = self.limbs@.take(i + 1);
                assert(done_next =~= done.push(low));
                assert forall|j: int| 0 <= j < done_next.len() implies #[trigger] done_next[j] < BASE by {
                    if j < i {
                        assert(done[j] < BASE);
                    }
                }
            }
            carry = next;
            i = i + 1;
        }
        proof {
            assert(self.limbs@.take(n as int) =~= self.limbs@);
            assert(before.take(n as int) =~= before);
        }
        if carry > 0 {
            let ghost full = self.limbs@;
            self.limbs.push(carry as u32);
            proof {
                lemma_value_push(full, carry as u32);
                assert forall|j: int| 0 <= j < self.limbs@.len() implies #[trigger] self.limbs@[j] < BASE by {
                    if j < n {
                        assert(full[j] < BASE);
                    }
                }
            }
        } else {
            proof {
                assert(carry * pow_base(n as nat) == 0) by (nonlinear_arith)
                    requires
                        carry == 0,
                ;
            }
        }
    }

    /// Halves the number, and says whether a half was dropped.
    pub fn halve(&mut self) -> (odd: bool)
        requires
            old(self).wf(),
        ensures
            final(self).wf(),
            final(self)@ == old(self)@ / 2,
            odd == (old(self)@ % 2 == 1),
    {
        let n: usize = self.limbs.len();
        let ghost before = self.limbs@;
        let mut rest: u64 = 0;
        let mut i: usize = n;
        proof {
            assert(before.skip(n as int) =~= Seq::<u32>::empty());
            assert(self.limbs@.skip(n as int) =~= Seq::<u32>::empty());
        }
        while i > 0
            invariant
                i <= n,
                n == before.len(),
                self.limbs@.len() == n,
                limbs_ok(before),
                rest <= 1,
                limbs_ok(self.limbs@.skip(i as int)),
                forall|j: int| 0 <= j < i ==> self.limbs@[j] == before[j],
                limbs_value(self.limbs@.skip(i as int)) * 2 + rest == limbs_value(before.skip(i as int)),
            decreases i,
        {
            i = i - 1;
            let ghost done = self.limbs@.skip(i + 1);
            assert(before[i as int] < BASE);
            let current: u64 = rest * 1_000_000_000 + (self.limbs[i] as u64);
            let half: u32 = (current / 2) as u32;
            let odd: u64 = current % 2;
            self.limbs[i] = half;
            proof {
                let now = self.limbs@.skip(i as int);
                let was = before.skip(i as int);
                assert(now.drop_first() =~= done);
                assert(now[0] == half);
                assert(was.drop_first() =~= before.skip(i + 1));
                assert(was[0] == before[i as int]);
                assert(limbs_value(now) == half + BASE * limbs_value(done));
                assert(limbs_value(was) == before[i as int] + BASE * limbs_value(before.skip(i + 1)));
                assert(current == 2 * half + odd);
                assert forall|j: int| 0 <= j < now.len() implies #[trigger] now[j] < BASE by {
                    if j > 0 {
                        assert(now[j] == done[j - 1]);
                    }
                }
            }
            rest = odd;
        }
        proof {
            assert(self.limbs@.skip(0) =~= self.limbs@);
            assert(before.skip(0) =~= before);
        }
        rest == 1
    }

    /// Adds one to the number.
    pub fn add_one(&mut self)
        requires
            old(self).wf(),
        ensures
            final(self).wf(),
            final(self)@ == old(self)@ + 1,
    {
        let n: usize = self.limbs.len();
        let ghost before = self.limbs@;
        let mut i: usize = 0;
        proof {
            assert(before.take(0) =~= Seq::<u32>::empty());
            assert(limbs_value(before.take(0)) == 0);
            assert(pow_base(0) == 1);
        }
        while i < n
            invariant
                i <= n,
                n == before.len(),
                self.limbs@.len() == n,
                limbs_ok(before),
                before == old(self).limbs@,
                limbs_ok(self.limbs@),
                forall|j: int| i <= j < n ==> self.limbs@[j] == before[j],
                limbs_value(self.limbs@.take(i as int)) + pow_base(i as nat) == limbs_value(before.take(i as int))
                    + 1,
            decreases n - i,
        {
            let ghost done = self.limbs@.take(i as int);
            let ghost was = before.take(i as int);
            assert(before[i as int] < BASE);
            proof {
                lemma_value_push(was, before[i as int]);
                assert(before.take(i + 1) =~= was.push(before[i as int]));
                assert(pow_base((i + 1) as nat) == BASE * pow_base(i as nat));
            }
            if self.limbs[i] < 999_999_999 {
                let limb: u32 = self.limbs[i] + 1;
                let ghost whole = self.limbs@;
                self.limbs[i] = limb;
                proof {
                    // the carry ends here: the limbs above stay as they are
                    lemma_value_push(done, limb);
                    assert(self.limbs@.take(i + 1) =~= done.push(limb));
                    assert((before[i as int] + 1) * pow_base(i as nat) == before[i as int] * pow_base(i as nat)
                        + pow_base(i as nat)) by (nonlinear_arith);
                    assert(limbs_value(self.limbs@.take(i + 1)) == limbs_value(before.take(i + 1)) + 1);
                    assert forall|j: int| i + 1 <= j < n implies self.limbs@[j] == before[j] by {
                        assert(whole[j] == before[j]);
                    }
                    lemma_value_rest(self.limbs@, before, (i + 1) as int);
                    assert(limbs_value(self.limbs@) == limbs_value(before) + 1);
                    assert(before == old(self).limbs@);
                }
                return ;
            }
            self.limbs[i] = 0;
            proof {
                lemma_value_push(done, 0);
                assert(self.limbs@.take(i + 1) =~= done.push(0u32));
                assert(999_999_999 * pow_base(i as nat) + pow_base(i as nat) == BASE * pow_base(i as nat))
                    by (nonlinear_arith);
                assert(0 * pow_base(i as nat) == 0) by (nonlinear_arith);
            }
            i = i + 1;
        }
        let ghost full = self.limbs@;
        self.limbs.push(1);
        proof {
            assert(full.take(n as int) =~= full);
            assert(before.take(n as int) =~= before);
            lemma_value_push(full, 1);
            assert(1 * pow_base(n as nat) == pow_base(n as nat)) by (nonlinear_arith);
            assert forall|j: int| 0 <= j < self.limbs@.len() implies #[trigger] self.limbs@[j] < BASE by {
                if j < n {
                    assert(full[j] < BASE);
                }
            }
        }
    }

    /// The decimal digits of the number, the highest first, without leading
    /// zeros.
    pub fn to_digits(&self) -> (digits: Vec<u8>)
        requires
            self.wf(),
        ensures
            digits_ok(digits@),
            digit_text(digits@) == decimal(self@),
            digits@.len() >= 1,
    {
        let mut t: usize = self.limbs.len();
        while t > 0 && self.limbs[t - 1] == 0
            invariant
                t <= self.limbs@.len(),
                forall|j: int| t <= j < self.limbs@.len() ==> self.limbs@[j] == 0,
            decreases t,
        {
            t = t - 1;
        }
        let ghost s = self.limbs@.take(t as int);
        proof {
            lemma_value_zero_top(self.limbs@, t as int);
            lemma_base_is_pow10();
            assert forall|j: int| 0 <= j < s.len() implies #[trigger] s[j] < BASE by {
                assert(self.limbs@[j] < BASE);
            }
        }
        let mut out: Vec<u8> = Vec::new();
        if t == 0 {
            out.push(0);
            proof {
                assert(s =~= Seq::<u32>::empty());
                assert(digit_text(out@) =~= seq!['0']);
                assert(decimal(0) =~= seq!['0']);
            }
            return out;
        }
        let mut i: usize = t - 1;
        proof {
            assert(digit_text(out@) =~= Seq::<char>::empty());
        }
        push_digits(&mut out, self.limbs[i]);
        proof {
            let top = s.skip(i as int);
            assert(top.drop_first() =~= Seq::<u32>::empty());
            assert(limbs_value(top.drop_first()) == 0);
            assert(top[0] == self.limbs@[i as int]);
            assert(limbs_value(top) == self.limbs@[i as int]);
            assert(Seq::<char>::empty() + decimal(self.limbs@[i as int] as nat) =~= decimal(
                self.limbs@[i as int] as nat,
            ));
        }
        while i > 0
            invariant
                i < t <= self.limbs@.len(),
                s == self.limbs@.take(t as int),
                limbs_ok(s),
                pow10(9) == BASE,
                digits_ok(out@),
                limbs_value(s.skip(i as int)) > 0,
                digit_text(out@) == decimal(limbs_value(s.skip(i as int))),
                out@.len() >= 1,
            decreases i,
        {
            i = i - 1;
            let limb: u32 = self.limbs[i];
            let ghost above = limbs_value(s.skip(i + 1));
            let ghost before = out@;
            proof {
                assert(s[i as int] == limb);
                assert(limb < BASE);
                let part = s.skip(i as int);
                assert(part.drop_first() =~= s.skip(i + 1));
                assert(part[0] == limb);
                assert(limbs_value(part) == limb + BASE * above);
                lemma_decimal_concat(above, limb as nat, 9);
                assert(above * pow10(9) == BASE * above) by (nonlinear_arith)
                    requires
                        pow10(9) == BASE,
                ;
                assert(BASE * above >= BASE) by (nonlinear_arith)
                    requires
                        above >= 1,
                ;
            }
            push_padded_digits(&mut out, limb, 9);
            proof {
                assert(digit_text(out@).len() == out@.len());
            }
        }
        proof {
            assert(s.skip(0) =~= s);
            assert(digit_text(out@).len() == out@.len());
        }
        out
    }

    /// Whether the number is odd.
    pub fn is_odd(&self) -> (r: bool)
        requires
            self.wf(),
        ensures
            r == (self@ % 2 == 1),
    {
        if self.limbs.len() == 0 {
            false
        } else {
            proof {
                let rest = limbs_value(self.limbs@.drop_first());
                assert(self@ == self.limbs@[0] + BASE * rest);
                assert((BASE * rest) % 2 == 0) by (nonlinear_arith)
                    requires
                        BASE == 1_000_000_000,
                ;
            }
            self.limbs[0] % 2 == 1
        }
    }
}

} // verus!
