//! What an entry is: a row of the overlay that says what its value is called,
//! where it stands among the rows, and what to make of a value.

use vstd::prelude::*;
use vstd::string::*;
use crate::gradient::{ColorGradient, Shade, Stop};
use crate::ieee::{Double, Single};
use crate::ui::root::PerfUiRoot;
use crate::ui::widget::{color_or_default, update_row, FontChoice, Reading, RowUpdate};

verus! {

/// The text of a number, followed by its unit if the unit is shown.
pub open spec fn text_with_unit(text: Seq<char>, shown: bool, unit: Seq<char>) -> Seq<char> {
    if shown {
        text + unit
    } else {
        text
    }
}

/// The text of a number, followed by its unit if the unit is shown.
pub fn add_unit(text: &String, shown: bool, unit: &str) -> (r: String)
    ensures
        r@ == text_with_unit(text@, shown, unit@),
{
    let mut out: String = text.clone();
    if shown {
        out.append(unit);
    }
    out
}

/// An entry of the overlay.
///
/// The overlay fetches a value for the entry at each tick, outside this
/// library, and hands it over. A fetch may fail: that is no fault, and the
/// row then shows the placeholder of the overlay.
pub trait PerfUiEntry {
    /// What a fetch hands over.
    type Value;

    /// The label of the row.
    spec fn label_text(&self) -> Seq<char>;

    /// The key by which the rows are ordered.
    spec fn key(&self) -> i32;

    /// The text of a value.
    spec fn text_of(&self, value: &Self::Value) -> Seq<char>;

    /// The color of a value, if the entry has one for it.
    spec fn color_of(&self, value: &Self::Value) -> Option<Shade>;

    /// Whether a value is to be highlighted.
    spec fn highlight_of(&self, value: &Self::Value) -> bool;

    /// The label of the row. It depends on the settings alone.
    fn label(&self) -> (r: &str)
        ensures
            r@ == self.label_text(),
    ;

    /// The key by which the rows are ordered. It depends on the settings
    /// alone.
    fn sort_key(&self) -> (r: i32)
        ensures
            r == self.key(),
    ;

    /// The text of a value.
    fn format_value(&self, value: &Self::Value) -> (r: String)
        ensures
            r@ == self.text_of(value),
    ;

    /// The color of a value. None stands for the default color of the
    /// overlay.
    fn value_color(&self, value: &Self::Value) -> (r: Option<Shade>)
        ensures
            r == self.color_of(value),
    ;

    /// Whether a value is to be highlighted.
    fn value_highlight(&self, value: &Self::Value) -> (r: bool)
        ensures
            r == self.highlight_of(value),
    ;
}

/// An entry that knows in what range its values lie, for widgets that show a
/// value within a range.
pub trait PerfUiEntryDisplayRange: PerfUiEntry {
    /// The upper bound, if the entry has one.
    spec fn max_hint(&self) -> Option<Double>;

    /// The lower bound, if the entry has one.
    spec fn min_hint(&self) -> Option<Double>;

    /// A value as a number in double precision, if it has one.
    spec fn number_of(&self, value: &Self::Value) -> Option<Double>;

    /// An upper bound for the value. A value above it may be cut off.
    fn max_value_hint(&self) -> (r: Option<Double>)
        ensures
            r == self.max_hint(),
    ;

    /// A lower bound for the value. A value below it may be cut off.
    fn min_value_hint(&self) -> (r: Option<Double>)
        ensures
            r == self.min_hint(),
    ;

    /// A value as a number in double precision, by which it is placed in the
    /// range.
    fn value_number(&self, value: &Self::Value) -> (r: Option<Double>)
        ensures
            r == self.number_of(value),
    ;
}

/// What an entry makes of a value.
pub open spec fn reading_of<E: PerfUiEntry>(entry: &E, value: &E::Value, reading: Reading) -> bool {
    &&& reading.text@ == entry.text_of(value)
    &&& reading.color == entry.color_of(value)
    &&& reading.highlight == entry.highlight_of(value)
}

/// What an entry makes of a value: its text, its color and its highlight,
/// all three of the one value.
pub fn read_value<E: PerfUiEntry>(entry: &E, value: &E::Value) -> (r: Reading)
    ensures
        reading_of(entry, value, r),
{
    Reading {
        text: entry.format_value(value),
        color: entry.value_color(value),
        highlight: entry.value_highlight(value),
    }
}

/// One tick of an entry that is shown as plain text.
///
/// `fetched` is the value of this tick, or nothing if the fetch failed. A
/// value is shown with the entry's text, color and highlight for it. A failed
/// fetch shows the placeholder of the overlay, in its color and never
/// highlighted. Nothing of an earlier tick enters the result.
pub fn update<E: PerfUiEntry>(entry: &E, root: &PerfUiRoot, fetched: Option<E::Value>) -> (row: RowUpdate)
    ensures
        fetched matches Some(v) ==> {
            &&& row.text@ == entry.text_of(&v)
            &&& row.color == color_or_default(root, entry.color_of(&v))
            &&& row.font == (if entry.highlight_of(&v) {
                FontChoice::Highlight
            } else {
                FontChoice::Value
            })
            &&& row.background == (if entry.highlight_of(&v) {
                root.inner_background_color_highlight
            } else {
                root.inner_background_color
            })
        },
        fetched is None ==> {
            &&& row.text@ == root.text_err@
            &&& row.color == Shade::Solid(root.err_color)
            &&& row.font == FontChoice::Value
            &&& row.background == root.inner_background_color
        },
{
    match fetched {
        Some(value) => {
            let reading: Reading = read_value(entry, &value);
            update_row(root, Some(reading))
        },
        None => update_row(root, None),
    }
}

/// The label of a row: the one that was set, or the fallback if none was.
pub open spec fn label_or(label: Seq<char>, fallback: Seq<char>) -> Seq<char> {
    if label.len() == 0 {
        fallback
    } else {
        label
    }
}

/// The label of a row: the one that was set, or the fallback if none was.
pub fn choose_label<'a>(label: &'a String, fallback: &'a str) -> (r: &'a str)
    ensures
        r@ == label_or(label@, fallback@),
{
    if label.as_str().is_empty() {
        fallback
    } else {
        label.as_str()
    }
}

/// Whether a value lies below a threshold. Without a threshold none does, and
/// a NaN lies below nothing.
pub open spec fn below(threshold: Option<Single>, value: Single) -> bool {
    match threshold {
        Some(t) => value.lt(t),
        None => false,
    }
}

/// Whether a value lies above a threshold. Without a threshold none does, and
/// a NaN lies above nothing.
pub open spec fn above(threshold: Option<Single>, value: Single) -> bool {
    match threshold {
        Some(t) => t.lt(value),
        None => false,
    }
}

/// Whether a value lies below a threshold: see [`below`].
pub fn is_below(threshold: Option<Single>, value: Single) -> (r: bool)
    ensures
        r == below(threshold, value),
{
    match threshold {
        Some(t) => value.is_lt(&t),
        None => false,
    }
}

/// Whether a value lies above a threshold: see [`above`].
pub fn is_above(threshold: Option<Single>, value: Single) -> (r: bool)
    ensures
        r == above(threshold, value),
{
    match threshold {
        Some(t) => value.is_gt(&t),
        None => false,
    }
}

/// The upper bound of an entry that highlights at a threshold and colors by
/// a gradient: the bound that was set, if one was; otherwise the larger of
/// the threshold and the highest value of the gradient, or the one of them
/// that is there.
pub open spec fn upper_hint(given: Option<Single>, threshold: Option<Single>, stops: Seq<Stop>) -> Option<
    Single,
> {
    match given {
        Some(g) => Some(g),
        None => if stops.len() == 0 {
            threshold
        } else {
            match threshold {
                Some(t) => Some(t.max_of(stops.last().value)),
                None => Some(stops.last().value),
            }
        },
    }
}

/// The upper bound of an entry: see [`upper_hint`].
pub fn get_upper_hint(given: Option<Single>, threshold: Option<Single>, gradient: &ColorGradient) -> (r:
    Option<Single>)
    ensures
        r == upper_hint(given, threshold, gradient@),
{
    match given {
        Some(g) => Some(g),
        None => match (threshold, gradient.max_stop()) {
            (Some(t), None) => Some(t),
            (None, Some(stop)) => Some(stop.value),
            (Some(t), Some(stop)) => Some(t.max(stop.value)),
            (None, None) => None,
        },
    }
}

/// A bound in double precision.
pub open spec fn widened_hint(hint: Option<Single>) -> Option<Double> {
    match hint {
        Some(h) => Some(h.widened()),
        None => None,
    }
}

/// A bound in double precision.
pub fn widen_hint(hint: Option<Single>) -> (r: Option<Double>)
    ensures
        r == widened_hint(hint),
{
    match hint {
        Some(h) => Some(h.widen()),
        None => None,
    }
}

} // verus!
