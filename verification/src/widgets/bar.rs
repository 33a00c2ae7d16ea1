//! The bar widget: an entry shown as a bar that fills with its value.

use vstd::prelude::*;
use vstd::string::*;
use crate::color::Color;
use crate::entry::{read_value, PerfUiEntryDisplayRange};
use crate::ui::root::{no_color, transparent, PerfUiRoot};
use crate::ui::widget::{color_or_default, FontChoice, Reading};
use crate::gradient::{checked_lookup, no_nan, ColorGradient, Shade, Stop};
use crate::ieee::{lemma_widened_nan, Double, Single};

verus! {

/// Where the value is written as text.
#[derive(Clone, Copy, Debug, PartialEq, Eq, Structural)]
pub enum BarTextPosition {
    /// No text: the bar only.
    NoText,
    /// Inside the bar, at the center.
    Center,
    /// Inside the bar, at the start.
    Start,
    /// Inside the bar, at the end.
    End,
    /// Outside the bar, at the start.
    OutsideStart,
    /// Outside the bar, at the end.
    OutsideEnd,
}

impl Default for BarTextPosition {
    fn default() -> (r: Self)
        ensures
            r == BarTextPosition::Center,
    {
        BarTextPosition::Center
    }
}

/// Which way the bar fills up.
#[derive(Clone, Copy, Debug, PartialEq, Eq, Structural)]
pub enum BarFillDirection {
    /// From left to right.
    Left,
    /// From the center towards both sides.
    Center,
    /// From right to left.
    Right,
}

impl Default for BarFillDirection {
    fn default() -> (r: Self)
        ensures
            r == BarFillDirection::Left,
    {
        BarFillDirection::Left
    }
}

/// How much of the part of a bar that is not filled lies on one side of the
/// filled part.
#[derive(Clone, Copy, Debug, PartialEq, Eq, Structural)]
pub enum Share {
    Nothing,
    Half,
    All,
}

impl Share {
    /// The share, counted in halves of the part that is not filled.
    pub open spec fn halves(self) -> int {
        match self {
            Share::Nothing => 0,
            Share::Half => 1,
            Share::All => 2,
        }
    }
}

impl BarFillDirection {
    /// The shares of the unfilled part that lie left and right of the filled
    /// part.
    pub open spec fn shares(self) -> (Share, Share) {
        match self {
            BarFillDirection::Left => (Share::Nothing, Share::All),
            BarFillDirection::Center => (Share::Half, Share::Half),
            BarFillDirection::Right => (Share::All, Share::Nothing),
        }
    }

    /// The shares of the unfilled part that lie left and right of the filled
    /// part: a bar that fills from one side leaves all of it on the other, one
    /// that fills from the center leaves half on each.
    pub fn unfilled_shares(self) -> (r: (Share, Share))
        ensures
            r == self.shares(),
    {
        match self {
            BarFillDirection::Left => (Share::Nothing, Share::All),
            BarFillDirection::Center => (Share::Half, Share::Half),
            BarFillDirection::Right => (Share::All, Share::Nothing),
        }
    }
}

/// The comparison `==` of two bounds that may be missing: two missing bounds
/// are equal, two numbers are equal as numbers.
pub open spec fn same_bound(a: Option<Double>, b: Option<Double>) -> bool {
    match (a, b) {
        (None, None) => true,
        (Some(x), Some(y)) => x.same(y),
        _ => false,
    }
}

/// The lower bound from a gradient's lowest value and an entry's hint: the
/// smaller of the two, or the one that is there.
pub open spec fn lower_of(g: Option<Double>, h: Option<Double>) -> Option<Double> {
    match (g, h) {
        (Some(g), Some(h)) => Some(g.min_of(h)),
        (Some(g), None) => Some(g),
        (None, Some(h)) => Some(h),
        (None, None) => None,
    }
}

/// The upper bound from a gradient's highest value and an entry's hint: the
/// larger of the two, or the one that is there.
pub open spec fn upper_of(g: Option<Double>, h: Option<Double>) -> Option<Double> {
    match (g, h) {
        (Some(g), Some(h)) => Some(g.max_of(h)),
        (Some(g), None) => Some(g),
        (None, Some(h)) => Some(h),
        (None, None) => None,
    }
}

/// Both bounds, if both are there.
pub open spec fn both(low: Option<Double>, high: Option<Double>) -> Option<(Double, Double)> {
    match (low, high) {
        (Some(a), Some(b)) => Some((a, b)),
        _ => None,
    }
}

/// The range of a bar, from the lowest and highest value of its gradient and
/// the hints of its entry.
///
/// A gradient whose lowest and highest value are equal, or which has none,
/// spans nothing: the range is then that of the two hints, and there is none
/// unless both are there. Otherwise each bound is taken from the gradient and
/// the hint together.
pub open spec fn derived_range(
    g_min: Option<Double>,
    g_max: Option<Double>,
    h_min: Option<Double>,
    h_max: Option<Double>,
) -> Option<(Double, Double)> {
    if same_bound(g_min, g_max) {
        both(h_min, h_max)
    } else {
        both(lower_of(g_min, h_min), upper_of(g_max, h_max))
    }
}

/// How far a bar is filled.
#[derive(Clone, Copy, Debug, PartialEq, Eq, Structural)]
pub enum BarFill {
    /// There is no value or no range: the bar is drawn empty.
    Unknown,
    /// The value lies at or below the lower bound: nothing is filled.
    Empty,
    /// The value lies at or above the upper bound: all is filled.
    Full,
    /// The value lies strictly between the bounds: the filled fraction is the
    /// distance of the value from the lower bound, divided by the distance
    /// between the bounds.
    Partial { value: Double, min: Double, max: Double },
    /// The bounds are no range (the lower one is not below the upper one), or
    /// one of the three numbers is a NaN.
    Irregular { value: Double, min: Double, max: Double },
}

/// How far a bar is filled, for a value and a range that may be missing.
pub open spec fn fill_of(value: Option<Double>, range: Option<(Double, Double)>) -> BarFill {
    match (value, range) {
        (Some(v), Some((min, max))) => {
            if !min.lt(max) || v.nan() {
                BarFill::Irregular { value: v, min, max }
            } else if v.key() <= min.key() {
                BarFill::Empty
            } else if v.key() >= max.key() {
                BarFill::Full
            } else {
                BarFill::Partial { value: v, min, max }
            }
        },
        _ => BarFill::Unknown,
    }
}

/// The range of a bar: see [`derived_range`].
pub fn derive_range(
    g_min: Option<Double>,
    g_max: Option<Double>,
    h_min: Option<Double>,
    h_max: Option<Double>,
) -> (r: Option<(Double, Double)>)
    ensures
        r == derived_range(g_min, g_max, h_min, h_max),
{
    let spans_nothing: bool = match (g_min, g_max) {
        (None, None) => true,
        (Some(x), Some(y)) => x.is_same(&y),
        _ => false,
    };
    if spans_nothing {
        return match (h_min, h_max) {
            (Some(a), Some(b)) => Some((a, b)),
            _ => None,
        };
    }
    let v_min: Double = match (g_min, h_min) {
        (Some(g), Some(h)) => g.min(h),
        (Some(g), None) => g,
        (None, Some(h)) => h,
        (None, None) => {
            return None;
        },
    };
    let v_max: Double = match (g_max, h_max) {
        (Some(g), Some(h)) => g.max(h),
        (Some(g), None) => g,
        (None, Some(h)) => h,
        (None, None) => {
            return None;
        },
    };
    Some((v_min, v_max))
}

/// How far a bar is filled: see [`fill_of`].
pub fn get_fill(value: Option<Double>, range: Option<(Double, Double)>) -> (r: BarFill)
    ensures
        r == fill_of(value, range),
        value is None || range is None <==> r is Unknown,
{
    match (value, range) {
        (Some(v), Some((min, max))) => {
            if !min.is_lt(&max) || v.is_nan() {
                BarFill::Irregular { value: v, min, max }
            } else if v.order_key() <= min.order_key() {
                BarFill::Empty
            } else if v.order_key() >= max.order_key() {
                BarFill::Full
            } else {
                BarFill::Partial { value: v, min, max }
            }
        },
        _ => BarFill::Unknown,
    }
}

/// The lowest value of a gradient in double precision, if it has a stop.
pub open spec fn lowest_value(stops: Seq<Stop>) -> Option<Double> {
    if stops.len() == 0 {
        None
    } else {
        Some(stops[0].value.widened())
    }
}

/// The highest value of a gradient in double precision, if it has a stop.
pub open spec fn highest_value(stops: Seq<Stop>) -> Option<Double> {
    if stops.len() == 0 {
        None
    } else {
        Some(stops.last().value.widened())
    }
}

/// An entry shown as a bar. The bar wraps the entry, which is the source of
/// the value, and holds how the bar looks.
pub struct PerfUiWidgetBar<E> {
    /// Whether the value is also written as text, and where.
    pub text_position: BarTextPosition,
    /// The color of that text, in place of the entry's.
    pub text_color_override: Option<Color>,
    /// Which way the bar fills up.
    pub fill_direction: BarFillDirection,
    /// The color of the filled part, by value.
    pub bar_color: ColorGradient,
    /// The color of the part that is not filled.
    pub bar_background: Color,
    /// The thickness of the border, in pixels.
    pub bar_border_px: Single,
    /// The color of the border.
    pub bar_border_color: Color,
    /// A fixed height in pixels, if any.
    pub bar_height_px: Option<Single>,
    /// A fixed length in pixels, if any.
    pub bar_length_px: Option<Single>,
    /// The entry that the bar shows.
    pub entry: E,
}

/// The pattern of one half in single precision.
pub const SINGLE_HALF: u32 = 0x3f00_0000;

impl<E> PerfUiWidgetBar<E> {
    /// A bar with the default settings: text at the center, filling from the
    /// left, one gray for every value on a half transparent black, and a black
    /// border of one pixel.
    pub fn new(entry: E) -> (bar: Self)
        ensures
            bar.entry == entry,
            bar.text_position == BarTextPosition::Center,
            bar.text_color_override is None,
            bar.fill_direction == BarFillDirection::Left,
            bar.bar_color.wf(),
            bar.bar_color@ == seq![
                Stop {
                    value: Single { bits: 0xff80_0000 },
                    color: Color::srgba_of(
                        Single { bits: SINGLE_HALF },
                        Single { bits: SINGLE_HALF },
                        Single { bits: SINGLE_HALF },
                        Single { bits: 0x3f80_0000 },
                    ),
                },
            ],
            bar.bar_background == Color::srgba_of(
                Single { bits: 0 },
                Single { bits: 0 },
                Single { bits: 0 },
                Single { bits: SINGLE_HALF },
            ),
            bar.bar_border_color == Color::srgba_of(
                Single { bits: 0 },
                Single { bits: 0 },
                Single { bits: 0 },
                Single { bits: 0x3f80_0000 },
            ),
            bar.bar_border_px.bits == 0x3f80_0000,
            bar.bar_height_px is None,
            bar.bar_length_px is None,
    {
        let half: Single = Single::from_bits(SINGLE_HALF);
        PerfUiWidgetBar {
            text_position: BarTextPosition::Center,
            text_color_override: None,
            fill_direction: BarFillDirection::Left,
            bar_color: ColorGradient::single(Color::srgb(half, half, half)),
            bar_background: Color::srgba(Single::zero(), Single::zero(), Single::zero(), half),
            bar_border_color: Color::srgb(Single::zero(), Single::zero(), Single::zero()),
            bar_border_px: Single::one(),
            bar_height_px: None,
            bar_length_px: None,
            entry,
        }
    }

    /// The range of the bar, from the lowest and highest value of its
    /// gradient and the two hints of its entry: see [`derived_range`].
    pub fn get_range(&self, min_hint: Option<Double>, max_hint: Option<Double>) -> (r: Option<
        (Double, Double),
    >)
        ensures
            r == derived_range(
                lowest_value(self.bar_color@),
                highest_value(self.bar_color@),
                min_hint,
                max_hint,
            ),
    {
        let g_min: Option<Double> = match self.bar_color.min_stop() {
            Some(stop) => Some(stop.value.widen()),
            None => None,
        };
        let g_max: Option<Double> = match self.bar_color.max_stop() {
            Some(stop) => Some(stop.value.widen()),
            None => None,
        };
        derive_range(g_min, g_max, min_hint, max_hint)
    }
}

/// The text without the white space at its two ends.
pub uninterp spec fn trimmed(text: Seq<char>) -> Seq<char>;

/// Whether `part` is a run of consecutive characters of `text`.
pub open spec fn is_part_of(part: Seq<char>, text: Seq<char>) -> bool {
    exists|i: int, j: int| 0 <= i <= j <= text.len() && part == #[trigger] text.subrange(i, j)
}

/// `str::trim` of the standard library: the slice of `text` that is left when
/// the white space at its start and at its end is taken away. The contract
/// gives that slice its name, [`trimmed`], and claims of it that it is a
/// slice of the text: a run of consecutive characters of it. Which characters
/// count as white space it does not say.
#[verifier::external_body]
fn trim(text: &str) -> (r: &str)
    ensures
        r@ == trimmed(text@),
        is_part_of(r@, text@),
{
    text.trim()
}

/// What a bar is handed for one tick: what its entry made of the value, and
/// the value as a number if it has one.
#[derive(Debug)]
pub struct BarReading {
    pub reading: Reading,
    pub number: Option<Double>,
}

/// The text of a bar after a tick.
#[derive(Debug)]
pub struct BarText {
    /// The text, without white space at its ends.
    pub text: String,
    /// The font of the text.
    pub font: FontChoice,
    /// The new color of the text. There is none where the bar overrides the
    /// color: the text then keeps the color it has.
    pub color: Option<Shade>,
}

/// What a bar shows after a tick.
#[derive(Debug)]
pub struct BarUpdate {
    /// The background of the row.
    pub background: Color,
    /// The new color of the filled part. There is none without a number: the
    /// filled part then keeps the color it has.
    pub bar_color: Option<Shade>,
    /// How far the bar is filled.
    pub fill: BarFill,
    /// The shares of the part that is not filled that lie left and right of
    /// the filled part.
    pub unfilled: (Share, Share),
    /// The text, for a bar that has one.
    pub text: Option<BarText>,
}

/// Where the part of a bar that is not filled lies: by the direction in which
/// the bar fills, and all of it on the right while the fill is not known,
/// whatever the direction. The direction changes only where the filled part
/// lies, never how long it is.
pub open spec fn unfilled_of(direction: BarFillDirection, fill: BarFill) -> (Share, Share) {
    match fill {
        BarFill::Unknown => (Share::Nothing, Share::All),
        _ => direction.shares(),
    }
}

/// Whether the row of a bar is highlighted: only a value can be.
pub open spec fn bar_highlight(reading: Option<BarReading>) -> bool {
    match reading {
        Some(r) => r.reading.highlight,
        None => false,
    }
}

/// The number of a reading, if there is one.
pub open spec fn bar_number(reading: Option<BarReading>) -> Option<Double> {
    match reading {
        Some(r) => r.number,
        None => None,
    }
}

/// The color of the filled part for a number: that of the gradient for the
/// nearest number in single precision, and no color at all where the gradient
/// has none, or where its stops were written to in place and are out of
/// order.
pub open spec fn bar_shade(stops: Seq<Stop>, number: Double) -> Shade {
    match checked_lookup(stops, number.narrowed()) {
        Some(shade) => shade,
        None => Shade::Solid(no_color()),
    }
}

/// What the text of a bar shows for a tick: the text of the value or the
/// placeholder, trimmed; the highlight font only for a highlighted value; and
/// a color unless the bar overrides it.
pub open spec fn bar_text_shows(
    root: &PerfUiRoot,
    overridden: bool,
    reading: Option<BarReading>,
    text: BarText,
) -> bool {
    match reading {
        Some(r) => {
            &&& text.text@ == trimmed(r.reading.text@)
            &&& is_part_of(text.text@, r.reading.text@)
            &&& text.font == (if r.reading.highlight {
                FontChoice::Highlight
            } else {
                FontChoice::Value
            })
            &&& text.color == (if overridden {
                None
            } else {
                Some(color_or_default(root, r.reading.color))
            })
        },
        None => {
            &&& text.text@ == trimmed(root.text_err@)
            &&& is_part_of(text.text@, root.text_err@)
            &&& text.font == FontChoice::Value
            &&& text.color == (if overridden {
                None
            } else {
                Some(Shade::Solid(root.err_color))
            })
        },
    }
}

impl<E> PerfUiWidgetBar<E> {
    /// One tick of the bar.
    ///
    /// `reading` is what the entry made of the value it fetched, or nothing
    /// if it could fetch none; the hints are those of the entry. The row is
    /// highlighted only for a highlighted value. The filled part takes the
    /// color of the bar's gradient for the number, and is as long as the
    /// number lies in the range of the bar: without a number or a range the
    /// bar is empty.
    pub fn update_bar(
        &self,
        root: &PerfUiRoot,
        reading: Option<BarReading>,
        min_hint: Option<Double>,
        max_hint: Option<Double>,
    ) -> (r: BarUpdate)
        ensures
            r.background == (if bar_highlight(reading) {
                root.inner_background_color_highlight
            } else {
                root.inner_background_color
            }),
            r.bar_color == (match bar_number(reading) {
                Some(n) => Some(bar_shade(self.bar_color@, n)),
                None => None,
            }),
            r.fill == fill_of(
                bar_number(reading),
                derived_range(
                    lowest_value(self.bar_color@),
                    highest_value(self.bar_color@),
                    min_hint,
                    max_hint,
                ),
            ),
            r.unfilled == unfilled_of(self.fill_direction, r.fill),
            r.text is Some <==> self.text_position != BarTextPosition::NoText,
            r.text matches Some(text) ==> bar_text_shows(
                root,
                self.text_color_override is Some,
                reading,
                text,
            ),
            reading is None ==> r.fill is Unknown && r.unfilled == (Share::Nothing, Share::All) && r.background
                == root.inner_background_color,
    {
        let shows_text: bool = match self.text_position {
            BarTextPosition::NoText => false,
            _ => true,
        };
        let overridden: bool = self.text_color_override.is_some();
        match reading {
            Some(bar_reading) => {
                let highlight: bool = bar_reading.reading.highlight;
                let background: Color = if highlight {
                    root.inner_background_color_highlight
                } else {
                    root.inner_background_color
                };
                let bar_color: Option<Shade> = match bar_reading.number {
                    Some(n) => Some(
                        match self.bar_color.color_for_value(n.narrow()) {
                            Some(shade) => shade,
                            None => Shade::Solid(transparent()),
                        },
                    ),
                    None => None,
                };
                let fill: BarFill = get_fill(bar_reading.number, self.get_range(min_hint, max_hint));
                let unfilled: (Share, Share) = match fill {
                    BarFill::Unknown => (Share::Nothing, Share::All),
                    _ => self.fill_direction.unfilled_shares(),
                };
                let text: Option<BarText> = if shows_text {
                    let color: Option<Shade> = if overridden {
                        None
                    } else {
                        Some(
                            match bar_reading.reading.color {
                                Some(shade) => shade,
                                None => Shade::Solid(root.default_value_color),
                            },
                        )
                    };
                    Some(
                        BarText {
                            text: trim(bar_reading.reading.text.as_str()).to_owned(),
                            font: if highlight {
                                FontChoice::Highlight
                            } else {
                                FontChoice::Value
                            },
                            color,
                        },
                    )
                } else {
                    None
                };
                BarUpdate { background, bar_color, fill, unfilled, text }
            },
            None => {
                let text: Option<BarText> = if shows_text {
                    Some(
                        BarText {
                            text: trim(root.text_err.as_str()).to_owned(),
                            font: FontChoice::Value,
                            color: if overridden {
                                None
                            } else {
                                Some(Shade::Solid(root.err_color))
                            },
                        },
                    )
                } else {
                    None
                };
                BarUpdate {
                    background: root.inner_background_color,
                    bar_color: None,
                    fill: BarFill::Unknown,
                    unfilled: (Share::Nothing, Share::All),
                    text,
                }
            },
        }
    }
}

impl<E: PerfUiEntryDisplayRange> PerfUiWidgetBar<E> {
    /// One tick of the bar, for the value that was fetched for its entry, or
    /// for none if the fetch failed. The text, the color and the highlight
    /// are those of the entry for the value, the bar is filled by the value
    /// as a number, and the range is made with the hints of the entry: see
    /// [`PerfUiWidgetBar::update_bar`].
    pub fn update(&self, root: &PerfUiRoot, fetched: Option<E::Value>) -> (r: BarUpdate)
        ensures
            fetched is None ==> r.fill is Unknown && r.bar_color is None && r.background
                == root.inner_background_color,
            r.unfilled == unfilled_of(self.fill_direction, r.fill),
            fetched matches Some(v) ==> {
                &&& r.background == (if self.entry.highlight_of(&v) {
                    root.inner_background_color_highlight
                } else {
                    root.inner_background_color
                })
                &&& r.bar_color == (match self.entry.number_of(&v) {
                    Some(n) => Some(bar_shade(self.bar_color@, n)),
                    None => None,
                })
                &&& r.fill == fill_of(
                    self.entry.number_of(&v),
                    derived_range(
                        lowest_value(self.bar_color@),
                        highest_value(self.bar_color@),
                        self.entry.min_hint(),
                        self.entry.max_hint(),
                    ),
                )
            },
            r.text is Some <==> self.text_position != BarTextPosition::NoText,
            r.text matches Some(text) ==> match fetched {
                Some(v) => {
                    &&& text.text@ == trimmed(self.entry.text_of(&v))
                    &&& is_part_of(text.text@, self.entry.text_of(&v))
                    &&& text.font == (if self.entry.highlight_of(&v) {
                        FontChoice::Highlight
                    } else {
                        FontChoice::Value
                    })
                    &&& text.color == (if self.text_color_override is Some {
                        None
                    } else {
                        Some(color_or_default(root, self.entry.color_of(&v)))
                    })
                },
                None => {
                    &&& text.text@ == trimmed(root.text_err@)
                    &&& is_part_of(text.text@, root.text_err@)
                    &&& text.font == FontChoice::Value
                    &&& text.color == (if self.text_color_override is Some {
                        None
                    } else {
                        Some(Shade::Solid(root.err_color))
                    })
                },
            },
    {
        let min_hint: Option<Double> = self.entry.min_value_hint();
        let max_hint: Option<Double> = self.entry.max_value_hint();
        let reading: Option<BarReading> = match fetched {
            Some(value) => Some(
                BarReading {
                    reading: read_value(&self.entry, &value),
                    number: self.entry.value_number(&value),
                },
            ),
            None => None,
        };
        self.update_bar(root, reading, min_hint, max_hint)
    }

    /// The key by which the bar is ordered among the rows: that of its entry.
    pub fn sort_key(&self) -> (r: i32)
        ensures
            r == self.entry.key(),
    {
        self.entry.sort_key()
    }
}

/// With a gradient that spans nothing, the range is that of the two hints, and
/// there is none if a hint is missing.
pub proof fn lemma_range_from_hints(
    g_min: Option<Double>,
    g_max: Option<Double>,
    h_min: Option<Double>,
    h_max: Option<Double>,
)
    requires
        same_bound(g_min, g_max),
    ensures
        h_min is Some && h_max is Some ==> derived_range(g_min, g_max, h_min, h_max) == Some(
            (h_min->Some_0, h_max->Some_0),
        ),
        h_min is None || h_max is None ==> derived_range(g_min, g_max, h_min, h_max) is None,
{
}

/// A gradient of one stop, or of none, spans nothing: the range of the bar is
/// then that of the two hints of the entry, and there is none if one of them
/// is missing.
pub proof fn lemma_range_of_short_gradient(stops: Seq<Stop>, h_min: Option<Double>, h_max: Option<Double>)
    requires
        stops.len() <= 1,
        no_nan(stops),
    ensures
        h_min is Some && h_max is Some ==> derived_range(
            lowest_value(stops),
            highest_value(stops),
            h_min,
            h_max,
        ) == Some((h_min->Some_0, h_max->Some_0)),
        h_min is None || h_max is None ==> derived_range(
            lowest_value(stops),
            highest_value(stops),
            h_min,
            h_max,
        ) is None,
{
    if stops.len() == 1 {
        lemma_widened_nan(stops[0].value);
    }
}

/// The two shares are the whole of the part that is not filled, whatever the
/// direction and the fill: the direction decides where the filled part lies,
/// and never how long it is.
pub proof fn lemma_unfilled_is_whole(direction: BarFillDirection, fill: BarFill)
    ensures
        unfilled_of(direction, fill).0.halves() + unfilled_of(direction, fill).1.halves() == 2,
        fill is Unknown ==> unfilled_of(direction, fill) == (Share::Nothing, Share::All),
        !(fill is Unknown) ==> unfilled_of(direction, fill) == direction.shares(),
{
}

/// Over a range whose lower bound lies below its upper bound, a value that is
/// not a NaN fills nothing at or below the lower bound, all at or above the
/// upper bound, and a part strictly between them: never less than nothing or
/// more than all.
pub proof fn lemma_fill_is_clamped(v: Double, min: Double, max: Double)
    requires
        min.lt(max),
        !v.nan(),
    ensures
        v.key() <= min.key() ==> fill_of(Some(v), Some((min, max))) == BarFill::Empty,
        v.key() >= max.key() ==> fill_of(Some(v), Some((min, max))) == BarFill::Full,
        min.key() < v.key() < max.key() ==> fill_of(Some(v), Some((min, max))) == (BarFill::Partial {
            value: v,
            min,
            max,
        }),
{
}

} // verus!
