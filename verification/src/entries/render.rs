//! Entries for the time that rendering takes.

use vstd::prelude::*;
use vstd::string::*;
use crate::entry::{
    above, add_unit, choose_label, get_upper_hint, is_above, label_or, text_with_unit, upper_hint,
    widen_hint, widened_hint, PerfUiEntry, PerfUiEntryDisplayRange,
};
use crate::float_format::{float_text, format_pretty_float};
use crate::gradient::{checked_lookup, gyr_stops, ColorGradient, Shade};
use crate::ieee::{Double, Single};

verus! {

/// The processor time spent on rendering, in milliseconds: the sum over the
/// render passes.
#[derive(Debug)]
pub struct PerfUiEntryRenderCpuTime {
    /// The label of the row. If it is empty, the default label is used.
    pub label: String,
    /// Whether the unit (`ms`) is shown after the number.
    pub display_units: bool,
    /// The color by value. An empty gradient gives the default color.
    pub color_gradient: ColorGradient,
    /// A value above this threshold is highlighted.
    pub threshold_highlight: Option<Single>,
    /// The upper bound for widgets that show the value within a range. If
    /// there is none, it is made from the gradient and the threshold.
    pub max_value_hint: Option<Single>,
    /// Whether the smoothed value is shown, not the raw one.
    pub smoothed: bool,
    /// The number of digits of the whole part.
    pub digits: u8,
    /// The number of digits after the decimal point.
    pub precision: u8,
    /// The key by which the rows are ordered.
    pub sort_key: i32,
}

impl PerfUiEntryRenderCpuTime {
    /// Whether the entry has its default settings, and the given sort key.
    pub open spec fn is_default(&self, sort_key: i32) -> bool {
        &&& self.label@.len() == 0
        &&& self.display_units
        &&& self.color_gradient.wf()
        &&& self.color_gradient@ == gyr_stops(
            Single { bits: 0x4105_5555 },
            Single { bits: 0x4185_5555 },
            Single { bits: 0x4205_5555 },
        )
        &&& self.threshold_highlight == Some(Single { bits: 0x4248_0000 })
        &&& self.max_value_hint is None
        &&& !self.smoothed
        &&& self.digits == 2
        &&& self.precision == 3
        &&& self.sort_key == sort_key
    }

    /// The entry with its default settings: green, yellow and red at the frame
    /// times of 120, 60 and 30 frames per second, highlighted above that of 20,
    /// in milliseconds with two digits and three decimal places. The raw value
    /// is shown.
    pub fn new(sort_key: i32) -> (e: Self)
        ensures
            e.is_default(sort_key),
    {
        PerfUiEntryRenderCpuTime {
            label: String::new(),
            display_units: true,
            color_gradient: ColorGradient::new_preset_gyr(
                Single::from_bits(0x4105_5555),
                Single::from_bits(0x4185_5555),
                Single::from_bits(0x4205_5555),
            ).unwrap(),
            threshold_highlight: Some(Single::from_bits(0x4248_0000)),
            max_value_hint: None,
            smoothed: false,
            digits: 2,
            precision: 3,
            sort_key,
        }
    }
}

impl PerfUiEntry for PerfUiEntryRenderCpuTime {
    type Value = Double;

    open spec fn label_text(&self) -> Seq<char> {
        label_or(self.label@, "Render CPU Time"@)
    }

    open spec fn key(&self) -> i32 {
        self.sort_key
    }

    open spec fn text_of(&self, value: &Double) -> Seq<char> {
        text_with_unit(float_text(self.digits, self.precision, *value), self.display_units, " ms"@)
    }

    open spec fn color_of(&self, value: &Double) -> Option<Shade> {
        checked_lookup(self.color_gradient@, value.narrowed())
    }

    open spec fn highlight_of(&self, value: &Double) -> bool {
        above(self.threshold_highlight, value.narrowed())
    }

    fn label(&self) -> (r: &str) {
        choose_label(&self.label, "Render CPU Time")
    }

    fn sort_key(&self) -> (r: i32) {
        self.sort_key
    }

    fn format_value(&self, value: &Double) -> (r: String) {
        add_unit(&format_pretty_float(self.digits, self.precision, *value), self.display_units, " ms")
    }

    fn value_color(&self, value: &Double) -> (r: Option<Shade>) {
        self.color_gradient.color_for_value(value.narrow())
    }

    fn value_highlight(&self, value: &Double) -> (r: bool) {
        is_above(self.threshold_highlight, value.narrow())
    }
}

impl PerfUiEntryDisplayRange for PerfUiEntryRenderCpuTime {
    open spec fn max_hint(&self) -> Option<Double> {
        widened_hint(upper_hint(self.max_value_hint, self.threshold_highlight, self.color_gradient@))
    }

    open spec fn min_hint(&self) -> Option<Double> {
        Some(Double { bits: 0 })
    }

    open spec fn number_of(&self, value: &Double) -> Option<Double> {
        Some(*value)
    }

    fn max_value_hint(&self) -> (r: Option<Double>) {
        widen_hint(get_upper_hint(self.max_value_hint, self.threshold_highlight, &self.color_gradient))
    }

    fn min_value_hint(&self) -> (r: Option<Double>) {
        Some(Double::zero())
    }

    fn value_number(&self, value: &Double) -> (r: Option<Double>) {
        Some(*value)
    }
}

/// The time that the graphics processor spends on rendering, in
/// milliseconds: the sum over the render passes.
#[derive(Debug)]
pub struct PerfUiEntryRenderGpuTime {
    /// The label of the row. If it is empty, the default label is used.
    pub label: String,
    /// Whether the unit (`ms`) is shown after the number.
    pub display_units: bool,
    /// The color by value. An empty gradient gives the default color.
    pub color_gradient: ColorGradient,
    /// A value above this threshold is highlighted.
    pub threshold_highlight: Option<Single>,
    /// The upper bound for widgets that show the value within a range. If
    /// there is none, it is made from the gradient and the threshold.
    pub max_value_hint: Option<Single>,
    /// Whether the smoothed value is shown, not the raw one.
    pub smoothed: bool,
    /// The number of digits of the whole part.
    pub digits: u8,
    /// The number of digits after the decimal point.
    pub precision: u8,
    /// The key by which the rows are ordered.
    pub sort_key: i32,
}

impl PerfUiEntryRenderGpuTime {
    /// Whether the entry has its default settings, and the given sort key.
    pub open spec fn is_default(&self, sort_key: i32) -> bool {
        &&& self.label@.len() == 0
        &&& self.display_units
        &&& self.color_gradient.wf()
        &&& self.color_gradient@ == gyr_stops(
            Single { bits: 0x4105_5555 },
            Single { bits: 0x4185_5555 },
            Single { bits: 0x4205_5555 },
        )
        &&& self.threshold_highlight == Some(Single { bits: 0x4248_0000 })
        &&& self.max_value_hint is None
        &&& !self.smoothed
        &&& self.digits == 2
        &&& self.precision == 3
        &&& self.sort_key == sort_key
    }

    /// The entry with its default settings: green, yellow and red at the frame
    /// times of 120, 60 and 30 frames per second, highlighted above that of 20,
    /// in milliseconds with two digits and three decimal places. The raw value
    /// is shown.
    pub fn new(sort_key: i32) -> (e: Self)
        ensures
            e.is_default(sort_key),
    {
        PerfUiEntryRenderGpuTime {
            label: String::new(),
            display_units: true,
            color_gradient: ColorGradient::new_preset_gyr(
                Single::from_bits(0x4105_5555),
                Single::from_bits(0x4185_5555),
                Single::from_bits(0x4205_5555),
            ).unwrap(),
            threshold_highlight: Some(Single::from_bits(0x4248_0000)),
            max_value_hint: None,
            smoothed: false,
            digits: 2,
            precision: 3,
            sort_key,
        }
    }
}

impl PerfUiEntry for PerfUiEntryRenderGpuTime {
    type Value = Double;

    open spec fn label_text(&self) -> Seq<char> {
        label_or(self.label@, "Render GPU Time"@)
    }

    open spec fn key(&self) -> i32 {
        self.sort_key
    }

    open spec fn text_of(&self, value: &Double) -> Seq<char> {
        text_with_unit(float_text(self.digits, self.precision, *value), self.display_units, " ms"@)
    }

    open spec fn color_of(&self, value: &Double) -> Option<Shade> {
        checked_lookup(self.color_gradient@, value.narrowed())
    }

    open spec fn highlight_of(&self, value: &Double) -> bool {
        above(self.threshold_highlight, value.narrowed())
    }

    fn label(&self) -> (r: &str) {
        choose_label(&self.label, "Render GPU Time")
    }

    fn sort_key(&self) -> (r: i32) {
        self.sort_key
    }

    fn format_value(&self, value: &Double) -> (r: String) {
        add_unit(&format_pretty_float(self.digits, self.precision, *value), self.display_units, " ms")
    }

    fn value_color(&self, value: &Double) -> (r: Option<Shade>) {
        self.color_gradient.color_for_value(value.narrow())
    }

    fn value_highlight(&self, value: &Double) -> (r: bool) {
        is_above(self.threshold_highlight, value.narrow())
    }
}

impl PerfUiEntryDisplayRange for PerfUiEntryRenderGpuTime {
    open spec fn max_hint(&self) -> Option<Double> {
        widened_hint(upper_hint(self.max_value_hint, self.threshold_highlight, self.color_gradient@))
    }

    open spec fn min_hint(&self) -> Option<Double> {
        Some(Double { bits: 0 })
    }

    open spec fn number_of(&self, value: &Double) -> Option<Double> {
        Some(*value)
    }

    fn max_value_hint(&self) -> (r: Option<Double>) {
        widen_hint(get_upper_hint(self.max_value_hint, self.threshold_highlight, &self.color_gradient))
    }

    fn min_value_hint(&self) -> (r: Option<Double>) {
        Some(Double::zero())
    }

    fn value_number(&self, value: &Double) -> (r: Option<Double>) {
        Some(*value)
    }
}

} // verus!
