//! Color gradients: colors pinned to values, kept in strictly ascending order
//! of the values, one stop for each value.

use vstd::prelude::*;
use crate::color::Color;
use crate::ieee::Single;

verus! {

/// A stop of a gradient: a color pinned to a value.
#[derive(Clone, Copy, Debug, PartialEq, Eq, Structural)]
pub struct Stop {
    pub value: Single,
    pub color: Color,
}

/// What a gradient gives for a value.
#[derive(Clone, Copy, Debug, PartialEq, Eq, Structural)]
pub enum Shade {
    /// The color of one stop.
    Solid(Color),
    /// The value lies strictly between two neighboring stops: the color is a
    /// blend of theirs, weighted by where the value lies between them.
    Blend { low: Stop, high: Stop },
}

/// No stop holds a NaN.
pub open spec fn no_nan(s: Seq<Stop>) -> bool {
    forall|i: int| 0 <= i < s.len() ==> !(#[trigger] s[i]).value.nan()
}

/// The values of the stops never fall from one stop to a later one.
pub open spec fn ascending(s: Seq<Stop>) -> bool {
    forall|i: int, j: int| 0 <= i < j < s.len() ==> (#[trigger] s[i]).value.key() <= (#[trigger] s[j]).value.key()
}

/// The values of the stops rise from each stop to every later one: they are
/// in order, and no value occurs twice.
pub open spec fn strictly_ascending(s: Seq<Stop>) -> bool {
    forall|i: int, j: int| 0 <= i < j < s.len() ==> (#[trigger] s[i]).value.key() < (#[trigger] s[j]).value.key()
}

/// The stops are as a gradient keeps them: their values rise strictly, so that
/// they are sorted and no value occurs twice, and none is a NaN.
pub open spec fn well_formed(s: Seq<Stop>) -> bool {
    strictly_ascending(s) && no_nan(s)
}

/// The number of leading stops whose value lies below `k`. In an ascending
/// sequence these are all the stops below `k`.
pub open spec fn lower_bound(s: Seq<Stop>, k: int) -> int
    decreases s.len(),
{
    if s.len() == 0 || s[0].value.key() >= k {
        0
    } else {
        1 + lower_bound(s.drop_first(), k)
    }
}

/// The stops after a stop for a value that is not a NaN has been put in: a
/// stop of the same value keeps its value and takes the new color, otherwise
/// the new stop goes in front of the first stop of a greater value.
pub open spec fn inserted(s: Seq<Stop>, value: Single, color: Color) -> Seq<Stop> {
    let p = lower_bound(s, value.key());
    if p < s.len() && s[p].value.key() == value.key() {
        s.update(p, Stop { value: s[p].value, color })
    } else {
        s.insert(p, Stop { value, color })
    }
}

/// The stops after one call to add a stop: a NaN changes nothing.
pub open spec fn added(s: Seq<Stop>, value: Single, color: Color) -> Seq<Stop> {
    if value.nan() {
        s
    } else {
        inserted(s, value, color)
    }
}

/// The stops after adding each of `items` in turn.
pub open spec fn added_all(s: Seq<Stop>, items: Seq<Stop>) -> Seq<Stop>
    decreases items.len(),
{
    if items.len() == 0 {
        s
    } else {
        added(added_all(s, items.drop_last()), items.last().value, items.last().color)
    }
}

/// The color for `value` over the stops `s`.
pub open spec fn lookup(s: Seq<Stop>, value: Single) -> Option<Shade> {
    if value.nan() || s.len() == 0 {
        None
    } else if value.key() >= s.last().value.key() {
        Some(Shade::Solid(s.last().color))
    } else if value.key() <= s[0].value.key() {
        Some(Shade::Solid(s[0].color))
    } else {
        let p = lower_bound(s, value.key());
        if s[p].value.key() == value.key() {
            Some(Shade::Solid(s[p].color))
        } else {
            Some(Shade::Blend { low: s[p - 1], high: s[p] })
        }
    }
}

/// Whether the preset constructors take the three values: none is a NaN, and
/// they do not fall from low to mid to high.
pub open spec fn preset_values_ok(low: Single, mid: Single, high: Single) -> bool {
    &&& !low.nan()
    &&& !mid.nan()
    &&& !high.nan()
    &&& low.key() <= mid.key()
    &&& mid.key() <= high.key()
}

/// The stops of the preset that runs from red over yellow to green.
pub open spec fn ryg_stops(low: Single, mid: Single, high: Single) -> Seq<Stop> {
    seq![
        Stop { value: low, color: Color::preset_red() },
        Stop { value: mid, color: Color::preset_yellow() },
        Stop { value: high, color: Color::preset_green() },
    ]
}

/// The stops of the preset that runs from green over yellow to red.
pub open spec fn gyr_stops(low: Single, mid: Single, high: Single) -> Seq<Stop> {
    seq![
        Stop { value: low, color: Color::preset_green() },
        Stop { value: mid, color: Color::preset_yellow() },
        Stop { value: high, color: Color::preset_red() },
    ]
}

/// A color gradient with any number of stops.
///
/// Each stop is a color pinned to a value. For a value between two stops the
/// gradient names the two, for a blend; outside the stops it gives the color
/// of the nearest one. A gradient without stops gives no color.
#[derive(Debug)]
pub struct ColorGradient {
    stops: Vec<Stop>,
}

impl View for ColorGradient {
    type V = Seq<Stop>;

    closed spec fn view(&self) -> Seq<Stop> {
        self.stops@
    }
}

impl ColorGradient {
    /// The gradient is well formed: the values of its stops rise strictly, and
    /// none is a NaN. Every constructor gives such a gradient, and adding stops
    /// keeps it so; only writing to a stop in place can break it.
    pub open spec fn wf(&self) -> bool {
        well_formed(self@)
    }

    /// An empty gradient.
    pub fn new() -> (g: Self)
        ensures
            g@ == Seq::<Stop>::empty(),
            g.wf(),
    {
        ColorGradient { stops: Vec::new() }
    }

    /// A gradient of one color, used for every value: its one stop lies at
    /// negative infinity.
    pub fn single(color: Color) -> (g: Self)
        ensures
            g@ == seq![Stop { value: Single { bits: 0xff80_0000 }, color }],
            g.wf(),
    {
        let mut stops: Vec<Stop> = Vec::new();
        stops.push(Stop { value: Single::neg_infinity(), color });
        ColorGradient { stops }
    }

    /// The gradient of the three stops of a preset, added in their order. Of
    /// two stops of one value the earlier keeps its place and takes the color
    /// of the later.
    fn preset(low: Stop, mid: Stop, high: Stop) -> (g: Self)
        requires
            !low.value.nan(),
            !mid.value.nan(),
            !high.value.nan(),
        ensures
            g.wf(),
            g@ == added_all(Seq::<Stop>::empty(), seq![low, mid, high]),
            low.value.key() < mid.value.key() < high.value.key() ==> g@ == seq![low, mid, high],
    {
        let mut g = ColorGradient::new();
        g.add_stop(low.value, low.color);
        g.add_stop(mid.value, mid.color);
        g.add_stop(high.value, high.color);
        proof {
            lemma_added_all_three(low, mid, high);
            if low.value.key() < mid.value.key() < high.value.key() {
                lemma_added_three_rising(low, mid, high);
            }
        }
        g
    }

    /// Red, yellow and green at the given low, mid and high values. Fails if a
    /// value is a NaN or the values are not in this order.
    ///
    /// The three stops are added in their order, so the gradient has one stop
    /// for each value: where two of the values are equal, there is one stop
    /// for both, with the color of the later.
    pub fn new_preset_ryg(low: Single, mid: Single, high: Single) -> (r: Result<Self, ()>)
        ensures
            r is Ok <==> preset_values_ok(low, mid, high),
            r matches Ok(g) ==> g.wf() && g@ == added_all(Seq::<Stop>::empty(), ryg_stops(low, mid, high)),
            r matches Ok(g) ==> (low.key() < mid.key() < high.key() ==> g@ == ryg_stops(low, mid, high)),
    {
        if low.is_nan() || mid.is_nan() || high.is_nan() || low.is_gt(&mid) || mid.is_gt(&high) {
            return Err(());
        }
        Ok(
            ColorGradient::preset(
                Stop { value: low, color: Color::red() },
                Stop { value: mid, color: Color::yellow() },
                Stop { value: high, color: Color::green() },
            ),
        )
    }

    /// Green, yellow and red at the given low, mid and high values. Fails if a
    /// value is a NaN or the values are not in this order.
    ///
    /// The three stops are added in their order, so the gradient has one stop
    /// for each value: where two of the values are equal, there is one stop
    /// for both, with the color of the later.
    pub fn new_preset_gyr(low: Single, mid: Single, high: Single) -> (r: Result<Self, ()>)
        ensures
            r is Ok <==> preset_values_ok(low, mid, high),
            r matches Ok(g) ==> g.wf() && g@ == added_all(Seq::<Stop>::empty(), gyr_stops(low, mid, high)),
            r matches Ok(g) ==> (low.key() < mid.key() < high.key() ==> g@ == gyr_stops(low, mid, high)),
    {
        if low.is_nan() || mid.is_nan() || high.is_nan() || low.is_gt(&mid) || mid.is_gt(&high) {
            return Err(());
        }
        Ok(
            ColorGradient::preset(
                Stop { value: low, color: Color::green() },
                Stop { value: mid, color: Color::yellow() },
                Stop { value: high, color: Color::red() },
            ),
        )
    }

    /// Whether the gradient is well formed: see [`ColorGradient::wf`]. A
    /// gradient is, unless a stop was written to in place.
    pub fn is_wf(&self) -> (r: bool)
        ensures
            r == self.wf(),
    {
        let n: usize = self.stops.len();
        let mut i: usize = 0;
        while i < n
            invariant
                i <= n,
                n == self.stops@.len(),
                forall|j: int| 0 <= j < i ==> !(#[trigger] self.stops@[j]).value.nan(),
                forall|a: int, b: int|
                    0 <= a < b < i ==> (#[trigger] self.stops@[a]).value.key() < (#[trigger] self.stops@[b]).value.key(),
            decreases n - i,
        {
            if self.stops[i].value.is_nan() {
                assert(self@[i as int].value.nan());
                return false;
            }
            if i > 0 && self.stops[i - 1].value.order_key() >= self.stops[i].value.order_key() {
                assert(!(self@[i - 1].value.key() < self@[i as int].value.key()));
                return false;
            }
            proof {
                assert forall|a: int, b: int| 0 <= a < b < i + 1 implies (#[trigger] self.stops@[a]).value.key() < (
                #[trigger] self.stops@[b]).value.key() by {
                    if b == i && a < i - 1 {
                        assert(self.stops@[a].value.key() < self.stops@[i - 1].value.key());
                    }
                }
            }
            i = i + 1;
        }
        true
    }

    /// Binary search for the first stop whose value does not lie below `k`.
    fn search(&self, k: i64) -> (p: usize)
        requires
            self.wf(),
        ensures
            p == lower_bound(self@, k as int),
            p <= self@.len(),
    {
        let mut lo: usize = 0;
        let mut hi: usize = self.stops.len();
        proof {
            lemma_strict_is_ascending(self@);
        }
        while lo < hi
            invariant
                lo <= hi <= self.stops@.len(),
                ascending(self.stops@),
                forall|i: int| 0 <= i < lo ==> (#[trigger] self.stops@[i]).value.key() < k,
                forall|i: int| hi <= i < self.stops@.len() ==> (#[trigger] self.stops@[i]).value.key() >= k,
            decreases hi - lo,
        {
            let mid: usize = lo + (hi - lo) / 2;
            if self.stops[mid].value.order_key() < k {
                assert forall|i: int| 0 <= i < mid + 1 implies (#[trigger] self.stops@[i]).value.key() < k by {
                    if i < mid {
                        assert(self.stops@[i].value.key() <= self.stops@[mid as int].value.key());
                    }
                }
                lo = mid + 1;
            } else {
                assert forall|i: int| mid <= i < self.stops@.len() implies (#[trigger] self.stops@[i]).value.key() >= k by {
                    if mid < i {
                        assert(self.stops@[mid as int].value.key() <= self.stops@[i].value.key());
                    }
                }
                hi = mid;
            }
        }
        proof {
            lemma_lower_bound_is(self@, k as int, lo as int);
        }
        lo
    }

    /// Adds a stop. A NaN value is ignored. If a stop of the same value is
    /// there, it takes the new color.
    pub fn add_stop(&mut self, value: Single, color: Color)
        requires
            old(self).wf(),
        ensures
            final(self)@ == added(old(self)@, value, color),
            final(self).wf(),
            value.nan() ==> final(self)@ == old(self)@,
            old(self)@.len() <= final(self)@.len() <= old(self)@.len() + 1,
    {
        if value.is_nan() {
            return ;
        }
        let k: i64 = value.order_key();
        let p: usize = self.search(k);
        proof {
            lemma_strict_is_ascending(self@);
            lemma_inserted_keeps_order(self@, value, color);
        }
        if p < self.stops.len() && self.stops[p].value.order_key() == k {
            let kept: Single = self.stops[p].value;
            self.stops[p] = Stop { value: kept, color };
        } else {
            self.stops.insert(p, Stop { value, color });
        }
    }

    /// Adds each of the stops in turn.
    pub fn add_stops(&mut self, stops: Vec<Stop>)
        requires
            old(self).wf(),
        ensures
            final(self)@ == added_all(old(self)@, stops@),
            final(self).wf(),
    {
        let mut i: usize = 0;
        while i < stops.len()
            invariant
                i <= stops@.len(),
                self.wf(),
                self@ == added_all(old(self)@, stops@.take(i as int)),
            decreases stops@.len() - i,
        {
            let stop: Stop = stops[i];
            proof {
                let next = stops@.take(i + 1);
                assert(next.drop_last() =~= stops@.take(i as int));
                assert(next.last() == stops@[i as int]);
            }
            self.add_stop(stop.value, stop.color);
            i = i + 1;
        }
        proof {
            assert(stops@.take(stops@.len() as int) =~= stops@);
        }
    }

    /// The gradient with one more stop: see [`ColorGradient::add_stop`].
    pub fn with_stop(self, value: Single, color: Color) -> (g: Self)
        requires
            self.wf(),
        ensures
            g@ == added(self@, value, color),
            g.wf(),
    {
        let mut g = self;
        g.add_stop(value, color);
        g
    }

    /// The gradient with more stops: see [`ColorGradient::add_stops`].
    pub fn with_stops(self, stops: Vec<Stop>) -> (g: Self)
        requires
            self.wf(),
        ensures
            g@ == added_all(self@, stops@),
            g.wf(),
    {
        let mut g = self;
        g.add_stops(stops);
        g
    }

    /// The color for a value.
    ///
    /// A NaN and an empty gradient give none. At or above the highest stop it
    /// is that stop's color, at or below the lowest stop that stop's. A value
    /// that a stop holds gives that stop's color. Any other value lies between
    /// two neighboring stops, which are returned for blending.
    pub fn get_color_for_value(&self, value: Single) -> (r: Option<Shade>)
        requires
            self.wf(),
        ensures
            r == lookup(self@, value),
            r is None <==> value.nan() || self@.len() == 0,
            !value.nan() && self@.len() > 0 && value.key() >= self@.last().value.key() ==> r == Some(
                Shade::Solid(self@.last().color),
            ),
            !value.nan() && self@.len() > 0 && value.key() <= self@[0].value.key() ==> r == Some(
                Shade::Solid(self@[0].color),
            ),
            r matches Some(Shade::Blend { low, high }) ==> low.value.key() < value.key() < high.value.key()
                && exists|p: int| 0 < p < self@.len() && low == self@[p - 1] && high == #[trigger] self@[p],
            r matches Some(Shade::Solid(c)) ==> exists|p: int| 0 <= p < self@.len() && c == (#[trigger] self@[p]).color,
    {
        if value.is_nan() {
            return None;
        }
        let n: usize = self.stops.len();
        if n == 0 {
            return None;
        }
        let k: i64 = value.order_key();
        let last: Stop = self.stops[n - 1];
        let first: Stop = self.stops[0];
        proof {
            lemma_strict_is_ascending(self@);
            if n > 1 {
                assert(self@[0].value.key() < self@[n - 1].value.key());
            }
        }
        if k >= last.value.order_key() {
            assert(self@[n - 1] == last);
            return Some(Shade::Solid(last.color));
        }
        if k <= first.value.order_key() {
            assert(self@[0] == first);
            return Some(Shade::Solid(first.color));
        }
        let p: usize = self.search(k);
        proof {
            lemma_lower_bound_splits(self@, k as int);
            lemma_lower_bound_rest(self@, k as int);
            assert(p > 0) by {
                if p == 0 {
                    assert(self@[0].value.key() >= k);
                }
            }
            assert(p < n) by {
                if p == n {
                    assert(self@[n - 1].value.key() < k);
                }
            }
        }
        let high: Stop = self.stops[p];
        if high.value.order_key() == k {
            assert(self@[p as int] == high);
            Some(Shade::Solid(high.color))
        } else {
            let low: Stop = self.stops[p - 1];
            assert(self@[p as int] == high);
            assert(self@[p - 1] == low);
            Some(Shade::Blend { low, high })
        }
    }

    /// The color for a value, of a gradient whose stops may have been written
    /// to in place: that of [`ColorGradient::get_color_for_value`] while the
    /// gradient is well formed, and none once it is not.
    pub fn color_for_value(&self, value: Single) -> (r: Option<Shade>)
        ensures
            r == checked_lookup(self@, value),
    {
        if self.is_wf() {
            self.get_color_for_value(value)
        } else {
            None
        }
    }

    /// The lowest stop, if there is one.
    pub fn min_stop(&self) -> (r: Option<Stop>)
        ensures
            r == (if self@.len() == 0 {
                None
            } else {
                Some(self@[0])
            }),
    {
        if self.stops.len() == 0 {
            None
        } else {
            Some(self.stops[0])
        }
    }

    /// The highest stop, if there is one.
    pub fn max_stop(&self) -> (r: Option<Stop>)
        ensures
            r == (if self@.len() == 0 {
                None
            } else {
                Some(self@.last())
            }),
    {
        let n: usize = self.stops.len();
        if n == 0 {
            None
        } else {
            Some(self.stops[n - 1])
        }
    }

    /// The lowest stop, if there is one, for the caller to change. What the
    /// caller writes is stored as it is: the gradient stays well formed only if
    /// the new value keeps the order.
    pub fn min_stop_mut(&mut self) -> (r: Option<&mut Stop>)
        ensures
            old(self)@.len() == 0 ==> r is None && final(self)@ == old(self)@,
            old(self)@.len() > 0 ==> (r matches Some(stop) && *stop == old(self)@[0] && final(self)@ == old(
                self,
            )@.update(0, *final(stop))),
    {
        if self.stops.len() == 0 {
            None
        } else {
            Some(&mut self.stops[0])
        }
    }

    /// The highest stop, if there is one, for the caller to change. What the
    /// caller writes is stored as it is: the gradient stays well formed only if
    /// the new value keeps the order.
    pub fn max_stop_mut(&mut self) -> (r: Option<&mut Stop>)
        ensures
            old(self)@.len() == 0 ==> r is None && final(self)@ == old(self)@,
            old(self)@.len() > 0 ==> (r matches Some(stop) && *stop == old(self)@.last() && final(self)@ == old(
                self,
            )@.update(old(self)@.len() - 1, *final(stop))),
    {
        let n: usize = self.stops.len();
        if n == 0 {
            None
        } else {
            Some(&mut self.stops[n - 1])
        }
    }

    /// All the stops, lowest first, for the caller to change in place. What
    /// the caller writes is stored as it is.
    pub fn iter_stops_mut(&mut self) -> (r: &mut [Stop])
        ensures
            r@ == old(self)@,
            final(self)@ == final(r)@,
    {
        self.stops.as_mut_slice()
    }

    /// All the stops, lowest first.
    pub fn iter_stops(&self) -> (r: Vec<Stop>)
        ensures
            r@ == self@,
    {
        let mut out: Vec<Stop> = Vec::new();
        let mut i: usize = 0;
        while i < self.stops.len()
            invariant
                i <= self.stops@.len(),
                out@ == self.stops@.take(i as int),
            decreases self.stops@.len() - i,
        {
            out.push(self.stops[i]);
            proof {
                assert(self.stops@.take(i + 1) =~= self.stops@.take(i as int).push(self.stops@[i as int]));
            }
            i = i + 1;
        }
        proof {
            assert(self.stops@.take(self.stops@.len() as int) =~= self.stops@);
        }
        out
    }
}

impl Clone for ColorGradient {
    fn clone(&self) -> (g: Self)
        ensures
            g@ == self@,
    {
        ColorGradient { stops: self.iter_stops() }
    }
}

impl Default for ColorGradient {
    /// The empty gradient.
    fn default() -> (g: Self)
        ensures
            g@ == Seq::<Stop>::empty(),
            g.wf(),
    {
        ColorGradient::new()
    }
}

/// The color for `value` over stops that may be out of order: none while they
/// are, the color of well-formed stops otherwise.
pub open spec fn checked_lookup(s: Seq<Stop>, value: Single) -> Option<Shade> {
    if well_formed(s) {
        lookup(s, value)
    } else {
        None
    }
}

/// Values that rise strictly never fall.
pub proof fn lemma_strict_is_ascending(s: Seq<Stop>)
    requires
        strictly_ascending(s),
    ensures
        ascending(s),
{
    assert forall|i: int, j: int| 0 <= i < j < s.len() implies (#[trigger] s[i]).value.key() <= (#[trigger] s[j]).value.key() by {
        assert(s[i].value.key() < s[j].value.key());
    }
}

/// Adding three stops to an empty gradient is adding the first, then the
/// second, then the third.
pub proof fn lemma_added_all_three(a: Stop, b: Stop, c: Stop)
    ensures
        added_all(Seq::<Stop>::empty(), seq![a, b, c]) == added(
            added(added(Seq::<Stop>::empty(), a.value, a.color), b.value, b.color),
            c.value,
            c.color,
        ),
{
    reveal_with_fuel(added_all, 4);
    let s = seq![a, b, c];
    assert(s.drop_last() =~= seq![a, b]);
    assert(s.last() == c);
    assert(seq![a, b].drop_last() =~= seq![a]);
    assert(seq![a, b].last() == b);
    assert(seq![a].drop_last() =~= Seq::<Stop>::empty());
    assert(seq![a].last() == a);
}

/// Three stops whose values rise strictly and are no NaN, added to an empty
/// gradient, are its three stops as they were given.
pub proof fn lemma_added_three_rising(a: Stop, b: Stop, c: Stop)
    requires
        !a.value.nan(),
        !b.value.nan(),
        !c.value.nan(),
        a.value.key() < b.value.key() < c.value.key(),
    ensures
        added_all(Seq::<Stop>::empty(), seq![a, b, c]) == seq![a, b, c],
{
    lemma_added_all_three(a, b, c);
    let none = Seq::<Stop>::empty();
    let one = seq![a];
    let two = seq![a, b];
    lemma_lower_bound_is(none, a.value.key(), 0);
    assert(none.insert(0, a) =~= one);
    assert(a == Stop { value: a.value, color: a.color });
    assert(added(none, a.value, a.color) == one);
    lemma_lower_bound_is(one, b.value.key(), 1);
    assert(one.insert(1, b) =~= two);
    assert(b == Stop { value: b.value, color: b.color });
    assert(added(one, b.value, b.color) == two);
    lemma_lower_bound_is(two, c.value.key(), 2);
    assert(two.insert(2, c) =~= seq![a, b, c]);
    assert(c == Stop { value: c.value, color: c.color });
}

/// `lower_bound` splits the sequence: the stops in front of it lie below `k`,
/// and the stop at it, if there is one, does not.
pub proof fn lemma_lower_bound_splits(s: Seq<Stop>, k: int)
    ensures
        0 <= lower_bound(s, k) <= s.len(),
        forall|i: int| 0 <= i < lower_bound(s, k) ==> (#[trigger] s[i]).value.key() < k,
        lower_bound(s, k) < s.len() ==> s[lower_bound(s, k)].value.key() >= k,
    decreases s.len(),
{
    if s.len() == 0 || s[0].value.key() >= k {
    } else {
        let t = s.drop_first();
        lemma_lower_bound_splits(t, k);
        assert forall|i: int| 0 <= i < lower_bound(s, k) implies (#[trigger] s[i]).value.key() < k by {
            if i > 0 {
                assert(s[i] == t[i - 1]);
            }
        }
        if lower_bound(s, k) < s.len() {
            assert(s[lower_bound(s, k)] == t[lower_bound(t, k)]);
        }
    }
}

/// An index that splits the sequence as `lower_bound` does is `lower_bound`.
pub proof fn lemma_lower_bound_is(s: Seq<Stop>, k: int, p: int)
    requires
        0 <= p <= s.len(),
        forall|i: int| 0 <= i < p ==> (#[trigger] s[i]).value.key() < k,
        p < s.len() ==> s[p].value.key() >= k,
    ensures
        lower_bound(s, k) == p,
    decreases s.len(),
{
    if s.len() == 0 {
    } else if s[0].value.key() >= k {
        if p > 0 {
            assert(s[0].value.key() < k);
        }
    } else {
        let t = s.drop_first();
        assert(p > 0);
        assert forall|i: int| 0 <= i < p - 1 implies (#[trigger] t[i]).value.key() < k by {
            assert(t[i] == s[i + 1]);
        }
        if p - 1 < t.len() {
            assert(t[p - 1] == s[p]);
        }
        lemma_lower_bound_is(t, k, p - 1);
    }
}

/// In an ascending sequence every stop from `lower_bound` on lies at or above
/// `k`.
pub proof fn lemma_lower_bound_rest(s: Seq<Stop>, k: int)
    requires
        ascending(s),
    ensures
        forall|i: int| lower_bound(s, k) <= i < s.len() ==> (#[trigger] s[i]).value.key() >= k,
{
    lemma_lower_bound_splits(s, k);
    let p = lower_bound(s, k);
    assert forall|i: int| p <= i < s.len() implies (#[trigger] s[i]).value.key() >= k by {
        if i > p {
            assert(s[p].value.key() <= s[i].value.key());
        }
    }
}

/// Putting a stop in keeps the stops in order and free of NaN, and keeps
/// them strictly ascending where they were.
pub proof fn lemma_inserted_keeps_order(s: Seq<Stop>, value: Single, color: Color)
    requires
        ascending(s),
        no_nan(s),
        !value.nan(),
    ensures
        ascending(inserted(s, value, color)),
        no_nan(inserted(s, value, color)),
        strictly_ascending(s) ==> strictly_ascending(inserted(s, value, color)),
        s.len() <= inserted(s, value, color).len() <= s.len() + 1,
{
    let k = value.key();
    let p = lower_bound(s, k);
    lemma_lower_bound_splits(s, k);
    lemma_lower_bound_rest(s, k);
    let t = inserted(s, value, color);
    if p < s.len() && s[p].value.key() == k {
        assert forall|i: int| 0 <= i < t.len() implies (#[trigger] t[i]).value == s[i].value by {}
        assert forall|i: int, j: int| 0 <= i < j < t.len() implies (#[trigger] t[i]).value.key() <= (
        #[trigger] t[j]).value.key() by {
            assert(s[i].value.key() <= s[j].value.key());
        }
        assert forall|i: int| 0 <= i < t.len() implies !(#[trigger] t[i]).value.nan() by {
            assert(!s[i].value.nan());
        }
        if strictly_ascending(s) {
            assert forall|i: int, j: int| 0 <= i < j < t.len() implies (#[trigger] t[i]).value.key() < (
            #[trigger] t[j]).value.key() by {
                assert(s[i].value.key() < s[j].value.key());
            }
        }
    } else {
        s.insert_ensures(p, Stop { value, color });
        assert forall|i: int| 0 <= i < t.len() implies !(#[trigger] t[i]).value.nan() by {
            if i < p {
                assert(t[i] == s[i]);
            } else if i > p {
                assert(t[i] == s[i - 1]);
            }
        }
        assert forall|i: int| 0 <= i < t.len() && i != p implies (if i < p {
            #[trigger] t[i] == s[i]
        } else {
            t[i] == s[i - 1]
        }) by {
            if i > p {
                assert(t[(i - 1) + 1] == s[i - 1]);
            }
        }
        assert forall|i: int, j: int| 0 <= i < j < t.len() implies (#[trigger] t[i]).value.key() <= (
        #[trigger] t[j]).value.key() by {
            lemma_insert_pair(s, value, color, p, i, j);
        }
        if strictly_ascending(s) {
            assert forall|i: int, j: int| 0 <= i < j < t.len() implies (#[trigger] t[i]).value.key() < (
            #[trigger] t[j]).value.key() by {
                lemma_insert_pair(s, value, color, p, i, j);
            }
        }
    }
}

/// Adding stops, whatever they are and in whatever order, keeps the stops in
/// order and free of NaN, and keeps them strictly ascending where they were.
pub proof fn lemma_added_all_keeps_order(s: Seq<Stop>, items: Seq<Stop>)
    requires
        ascending(s),
        no_nan(s),
    ensures
        ascending(added_all(s, items)),
        no_nan(added_all(s, items)),
        strictly_ascending(s) ==> strictly_ascending(added_all(s, items)),
    decreases items.len(),
{
    if items.len() > 0 {
        lemma_added_all_keeps_order(s, items.drop_last());
        let before = added_all(s, items.drop_last());
        if !items.last().value.nan() {
            lemma_inserted_keeps_order(before, items.last().value, items.last().color);
        }
    }
}

/// The stops of a gradient that began empty and took any stops, in any order,
/// rise strictly: they are sorted by value, and no value occurs twice.
pub proof fn lemma_stops_strictly_ascending(items: Seq<Stop>)
    ensures
        strictly_ascending(added_all(Seq::<Stop>::empty(), items)),
        no_nan(added_all(Seq::<Stop>::empty(), items)),
        well_formed(added_all(Seq::<Stop>::empty(), items)),
{
    lemma_added_all_keeps_order(Seq::<Stop>::empty(), items);
}

/// Adding a stop whose value is a NaN never changes the number of stops, and
/// no gradient has a color for a NaN.
pub proof fn lemma_nan_is_ignored(s: Seq<Stop>, value: Single, color: Color)
    requires
        value.nan(),
    ensures
        added(s, value, color) == s,
        lookup(s, value) is None,
{
}

/// A gradient clamps at both ends: at or above its highest stop it gives
/// that stop's color, at or below its lowest stop that stop's.
pub proof fn lemma_lookup_clamps(s: Seq<Stop>, value: Single)
    requires
        well_formed(s),
        s.len() > 0,
        !value.nan(),
    ensures
        value.key() >= s.last().value.key() ==> lookup(s, value) == Some(Shade::Solid(s.last().color)),
        value.key() <= s[0].value.key() ==> lookup(s, value) == Some(Shade::Solid(s[0].color)),
{
    if s.len() > 1 {
        assert(s[0].value.key() < s[s.len() - 1].value.key());
    }
}

/// A stop that is added where a stop of its value is keeps the number of the
/// stops, and the value has its color from then on.
pub proof fn lemma_added_replaces(s: Seq<Stop>, p: int, value: Single, color: Color)
    requires
        well_formed(s),
        0 <= p < s.len(),
        !value.nan(),
        s[p].value.key() == value.key(),
    ensures
        added(s, value, color) == s.update(p, Stop { value: s[p].value, color }),
        lookup(added(s, value, color), value) == Some(Shade::Solid(color)),
{
    lemma_strict_is_ascending(s);
    assert forall|i: int| 0 <= i < p implies (#[trigger] s[i]).value.key() < value.key() by {
        assert(s[i].value.key() < s[p].value.key());
    }
    lemma_lower_bound_is(s, value.key(), p);
    let t = added(s, value, color);
    assert(t.len() == s.len());
    assert forall|i: int| 0 <= i < t.len() implies (#[trigger] t[i]).value == s[i].value by {}
    assert forall|i: int| 0 <= i < p implies (#[trigger] t[i]).value.key() < value.key() by {
        assert(s[i].value.key() < s[p].value.key());
    }
    lemma_lower_bound_is(t, value.key(), p);
    if p < t.len() - 1 {
        assert(s[p].value.key() < s[s.len() - 1].value.key());
        assert(t[t.len() - 1].value == s[s.len() - 1].value);
    }
    if p > 0 {
        assert(s[0].value.key() < s[p].value.key());
        assert(t[0].value == s[0].value);
    }
}

/// Two stops of a sequence with a new stop at `p`, where the stops in front of
/// `p` lie below the new value and the others above it.
proof fn lemma_insert_pair(s: Seq<Stop>, value: Single, color: Color, p: int, i: int, j: int)
    requires
        ascending(s),
        0 <= p <= s.len(),
        forall|a: int| 0 <= a < p ==> (#[trigger] s[a]).value.key() < value.key(),
        forall|a: int| p <= a < s.len() ==> (#[trigger] s[a]).value.key() > value.key(),
        0 <= i < j < s.len() + 1,
    ensures
        s.insert(p, Stop { value, color })[i].value.key() <= s.insert(p, Stop { value, color })[j].value.key(),
        strictly_ascending(s) ==> s.insert(p, Stop { value, color })[i].value.key() < s.insert(p, Stop { value, color })[j].value.key(),
{
    let t = s.insert(p, Stop { value, color });
    s.insert_ensures(p, Stop { value, color });
    let a = if i < p { i } else { i - 1 };
    let b = if j < p { j } else { j - 1 };
    if i != p {
        if i < p {
            assert(t[i] == s[a]);
        } else {
            assert(t[(i - 1) + 1] == s[i - 1]);
        }
    }
    if j != p {
        if j < p {
            assert(t[j] == s[b]);
        } else {
            assert(t[(j - 1) + 1] == s[j - 1]);
        }
    }
    if i != p && j != p {
        assert(a < b);
        assert(s[a].value.key() <= s[b].value.key());
        if strictly_ascending(s) {
            assert(s[a].value.key() < s[b].value.key());
        }
    }
}

} // verus!
