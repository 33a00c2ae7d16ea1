//! Entries for the diagnostics of the host: frame rate, frame time, counts
//! and the use of the machine.

use vstd::prelude::*;
use vstd::string::*;
use crate::entry::{
    above, add_unit, below, choose_label, get_upper_hint, is_above, is_below, label_or, text_with_unit,
    upper_hint, widen_hint, widened_hint, PerfUiEntry, PerfUiEntryDisplayRange,
};
use crate::format::{format_pretty_int, signed_decimal, clamped_int};
use crate::float_format::{float_text, format_pretty_float};
use crate::gradient::{checked_lookup, gyr_stops, ryg_stops, ColorGradient, Shade, Stop};
use crate::ieee::{Double, Single, DOUBLE_HUNDRED};

verus! {

/// The frame rate, in frames per second.
#[derive(Debug)]
pub struct PerfUiEntryFPS {
    /// The label of the row. If it is empty, the default label is used.
    pub label: String,
    /// The color by value. An empty gradient gives the default color.
    pub color_gradient: ColorGradient,
    /// A value below this threshold is highlighted.
    pub threshold_highlight: Option<Single>,
    /// The upper bound for widgets that show the value within a range. If
    /// there is none, it is made from the gradient and the threshold.
    pub max_value_hint: Option<Single>,
    /// Whether the smoothed value is shown, not the raw one.
    pub smoothed: bool,
    /// The number of digits of the whole part.
    pub digits: u8,
    /// The number of digits after the decimal point.
    pub precision: u8,
    /// The key by which the rows are ordered.
    pub sort_key: i32,
}

impl PerfUiEntryFPS {
    /// Whether the entry has its default settings, and the given sort key.
    pub open spec fn is_default(&self, sort_key: i32) -> bool {
        &&& self.label@.len() == 0
        &&& self.color_gradient.wf()
        &&& self.color_gradient@ == ryg_stops(
            Single { bits: 0x41f0_0000 },
            Single { bits: 0x4270_0000 },
            Single { bits: 0x42f0_0000 },
        )
        &&& self.threshold_highlight == Some(Single { bits: 0x41a0_0000 })
        &&& self.max_value_hint is None
        &&& self.smoothed
        &&& self.digits == 4
        &&& self.precision == 0
        &&& self.sort_key == sort_key
    }

    /// The entry with its default settings: red, yellow and green at 30, 60 and
    /// 120 frames per second, highlighted below 20, with four digits and no
    /// decimal places. The smoothed value is shown.
    pub fn new(sort_key: i32) -> (e: Self)
        ensures
            e.is_default(sort_key),
    {
        PerfUiEntryFPS {
            label: String::new(),
            color_gradient: ColorGradient::new_preset_ryg(
                Single::from_bits(0x41f0_0000),
                Single::from_bits(0x4270_0000),
                Single::from_bits(0x42f0_0000),
            ).unwrap(),
            threshold_highlight: Some(Single::from_bits(0x41a0_0000)),
            max_value_hint: None,
            smoothed: true,
            digits: 4,
            precision: 0,
            sort_key,
        }
    }
}

impl PerfUiEntry for PerfUiEntryFPS {
    type Value = Double;

    open spec fn label_text(&self) -> Seq<char> {
        label_or(self.label@, "FPS"@)
    }

    open spec fn key(&self) -> i32 {
        self.sort_key
    }

    open spec fn text_of(&self, value: &Double) -> Seq<char> {
        float_text(self.digits, self.precision, *value)
    }

    open spec fn color_of(&self, value: &Double) -> Option<Shade> {
        checked_lookup(self.color_gradient@, value.narrowed())
    }

    open spec fn highlight_of(&self, value: &Double) -> bool {
        below(self.threshold_highlight, value.narrowed())
    }

    fn label(&self) -> (r: &str) {
        choose_label(&self.label, "FPS")
    }

    fn sort_key(&self) -> (r: i32) {
        self.sort_key
    }

    fn format_value(&self, value: &Double) -> (r: String) {
        format_pretty_float(self.digits, self.precision, *value)
    }

    fn value_color(&self, value: &Double) -> (r: Option<Shade>) {
        self.color_gradient.color_for_value(value.narrow())
    }

    fn value_highlight(&self, value: &Double) -> (r: bool) {
        is_below(self.threshold_highlight, value.narrow())
    }
}

impl PerfUiEntryDisplayRange for PerfUiEntryFPS {
    open spec fn max_hint(&self) -> Option<Double> {
        widened_hint(upper_hint(self.max_value_hint, self.threshold_highlight, self.color_gradient@))
    }

    open spec fn min_hint(&self) -> Option<Double> {
        Some(Double { bits: 0 })
    }

    open spec fn number_of(&self, value: &Double) -> Option<Double> {
        Some(*value)
    }

    fn max_value_hint(&self) -> (r: Option<Double>) {
        widen_hint(get_upper_hint(self.max_value_hint, self.threshold_highlight, &self.color_gradient))
    }

    fn min_value_hint(&self) -> (r: Option<Double>) {
        Some(Double::zero())
    }

    fn value_number(&self, value: &Double) -> (r: Option<Double>) {
        Some(*value)
    }
}

/// The frame rate at its worst: the lowest value of the recent past.
#[derive(Debug)]
pub struct PerfUiEntryFPSWorst {
    /// The label of the row. If it is empty, the default label is used.
    pub label: String,
    /// The color by value. An empty gradient gives the default color.
    pub color_gradient: ColorGradient,
    /// A value below this threshold is highlighted.
    pub threshold_highlight: Option<Single>,
    /// The upper bound for widgets that show the value within a range. If
    /// there is none, it is made from the gradient and the threshold.
    pub max_value_hint: Option<Single>,
    /// The number of digits of the whole part.
    pub digits: u8,
    /// The number of digits after the decimal point.
    pub precision: u8,
    /// The key by which the rows are ordered.
    pub sort_key: i32,
}

impl PerfUiEntryFPSWorst {
    /// Whether the entry has its default settings, and the given sort key.
    pub open spec fn is_default(&self, sort_key: i32) -> bool {
        &&& self.label@.len() == 0
        &&& self.color_gradient.wf()
        &&& self.color_gradient@ == ryg_stops(
            Single { bits: 0x41f0_0000 },
            Single { bits: 0x4270_0000 },
            Single { bits: 0x42f0_0000 },
        )
        &&& self.threshold_highlight == Some(Single { bits: 0x41a0_0000 })
        &&& self.max_value_hint is None
        &&& self.digits == 4
        &&& self.precision == 0
        &&& self.sort_key == sort_key
    }

    /// The entry with its default settings: red, yellow and green at 30, 60 and
    /// 120 frames per second, highlighted below 20, with four digits and no
    /// decimal places.
    pub fn new(sort_key: i32) -> (e: Self)
        ensures
            e.is_default(sort_key),
    {
        PerfUiEntryFPSWorst {
            label: String::new(),
            color_gradient: ColorGradient::new_preset_ryg(
                Single::from_bits(0x41f0_0000),
                Single::from_bits(0x4270_0000),
                Single::from_bits(0x42f0_0000),
            ).unwrap(),
            threshold_highlight: Some(Single::from_bits(0x41a0_0000)),
            max_value_hint: None,
            digits: 4,
            precision: 0,
            sort_key,
        }
    }
}

impl PerfUiEntry for PerfUiEntryFPSWorst {
    type Value = Single;

    open spec fn label_text(&self) -> Seq<char> {
        label_or(self.label@, "FPS (worst)"@)
    }

    open spec fn key(&self) -> i32 {
        self.sort_key
    }

    open spec fn text_of(&self, value: &Single) -> Seq<char> {
        float_text(self.digits, self.precision, value.widened())
    }

    open spec fn color_of(&self, value: &Single) -> Option<Shade> {
        checked_lookup(self.color_gradient@, *value)
    }

    open spec fn highlight_of(&self, value: &Single) -> bool {
        below(self.threshold_highlight, *value)
    }

    fn label(&self) -> (r: &str) {
        choose_label(&self.label, "FPS (worst)")
    }

    fn sort_key(&self) -> (r: i32) {
        self.sort_key
    }

    fn format_value(&self, value: &Single) -> (r: String) {
        format_pretty_float(self.digits, self.precision, value.widen())
    }

    fn value_color(&self, value: &Single) -> (r: Option<Shade>) {
        self.color_gradient.color_for_value(*value)
    }

    fn value_highlight(&self, value: &Single) -> (r: bool) {
        is_below(self.threshold_highlight, *value)
    }
}

impl PerfUiEntryDisplayRange for PerfUiEntryFPSWorst {
    open spec fn max_hint(&self) -> Option<Double> {
        widened_hint(upper_hint(self.max_value_hint, self.threshold_highlight, self.color_gradient@))
    }

    open spec fn min_hint(&self) -> Option<Double> {
        Some(Double { bits: 0 })
    }

    open spec fn number_of(&self, value: &Single) -> Option<Double> {
        Some(value.widened())
    }

    fn max_value_hint(&self) -> (r: Option<Double>) {
        widen_hint(get_upper_hint(self.max_value_hint, self.threshold_highlight, &self.color_gradient))
    }

    fn min_value_hint(&self) -> (r: Option<Double>) {
        Some(Double::zero())
    }

    fn value_number(&self, value: &Single) -> (r: Option<Double>) {
        Some(value.widen())
    }
}

/// The frame rate on average over the recent past.
#[derive(Debug)]
pub struct PerfUiEntryFPSAverage {
    /// The label of the row. If it is empty, the default label is used.
    pub label: String,
    /// The color by value. An empty gradient gives the default color.
    pub color_gradient: ColorGradient,
    /// A value below this threshold is highlighted.
    pub threshold_highlight: Option<Single>,
    /// The upper bound for widgets that show the value within a range. If
    /// there is none, it is made from the gradient and the threshold.
    pub max_value_hint: Option<Single>,
    /// The number of digits of the whole part.
    pub digits: u8,
    /// The number of digits after the decimal point.
    pub precision: u8,
    /// The key by which the rows are ordered.
    pub sort_key: i32,
}

impl PerfUiEntryFPSAverage {
    /// Whether the entry has its default settings, and the given sort key.
    pub open spec fn is_default(&self, sort_key: i32) -> bool {
        &&& self.label@.len() == 0
        &&& self.color_gradient.wf()
        &&& self.color_gradient@ == ryg_stops(
            Single { bits: 0x41f0_0000 },
            Single { bits: 0x4270_0000 },
            Single { bits: 0x42f0_0000 },
        )
        &&& self.threshold_highlight == Some(Single { bits: 0x41a0_0000 })
        &&& self.max_value_hint is None
        &&& self.digits == 4
        &&& self.precision == 0
        &&& self.sort_key == sort_key
    }

    /// The entry with its default settings: red, yellow and green at 30, 60 and
    /// 120 frames per second, highlighted below 20, with four digits and no
    /// decimal places.
    pub fn new(sort_key: i32) -> (e: Self)
        ensures
            e.is_default(sort_key),
    {
        PerfUiEntryFPSAverage {
            label: String::new(),
            color_gradient: ColorGradient::new_preset_ryg(
                Single::from_bits(0x41f0_0000),
                Single::from_bits(0x4270_0000),
                Single::from_bits(0x42f0_0000),
            ).unwrap(),
            threshold_highlight: Some(Single::from_bits(0x41a0_0000)),
            max_value_hint: None,
            digits: 4,
            precision: 0,
            sort_key,
        }
    }
}

impl PerfUiEntry for PerfUiEntryFPSAverage {
    type Value = Single;

    open spec fn label_text(&self) -> Seq<char> {
        label_or(self.label@, "FPS (avg)"@)
    }

    open spec fn key(&self) -> i32 {
        self.sort_key
    }

    open spec fn text_of(&self, value: &Single) -> Seq<char> {
        float_text(self.digits, self.precision, value.widened())
    }

    open spec fn color_of(&self, value: &Single) -> Option<Shade> {
        checked_lookup(self.color_gradient@, *value)
    }

    open spec fn highlight_of(&self, value: &Single) -> bool {
        below(self.threshold_highlight, *value)
    }

    fn label(&self) -> (r: &str) {
        choose_label(&self.label, "FPS (avg)")
    }

    fn sort_key(&self) -> (r: i32) {
        self.sort_key
    }

    fn format_value(&self, value: &Single) -> (r: String) {
        format_pretty_float(self.digits, self.precision, value.widen())
    }

    fn value_color(&self, value: &Single) -> (r: Option<Shade>) {
        self.color_gradient.color_for_value(*value)
    }

    fn value_highlight(&self, value: &Single) -> (r: bool) {
        is_below(self.threshold_highlight, *value)
    }
}

impl PerfUiEntryDisplayRange for PerfUiEntryFPSAverage {
    open spec fn max_hint(&self) -> Option<Double> {
        widened_hint(upper_hint(self.max_value_hint, self.threshold_highlight, self.color_gradient@))
    }

    open spec fn min_hint(&self) -> Option<Double> {
        Some(Double { bits: 0 })
    }

    open spec fn number_of(&self, value: &Single) -> Option<Double> {
        Some(value.widened())
    }

    fn max_value_hint(&self) -> (r: Option<Double>) {
        widen_hint(get_upper_hint(self.max_value_hint, self.threshold_highlight, &self.color_gradient))
    }

    fn min_value_hint(&self) -> (r: Option<Double>) {
        Some(Double::zero())
    }

    fn value_number(&self, value: &Single) -> (r: Option<Double>) {
        Some(value.widen())
    }
}

/// The average of the lowest frame rates of the recent past: how steady the
/// frame rate is. Which share of the values counts as lowest is a setting.
#[derive(Debug)]
pub struct PerfUiEntryFPSPctLow {
    /// The label of the row. If it is empty, the default label is used.
    pub label: String,
    /// The color by value. An empty gradient gives the default color.
    pub color_gradient: ColorGradient,
    /// A value below this threshold is highlighted.
    pub threshold_highlight: Option<Single>,
    /// The upper bound for widgets that show the value within a range. If
    /// there is none, it is made from the gradient and the threshold.
    pub max_value_hint: Option<Single>,
    /// The number of digits of the whole part.
    pub digits: u8,
    /// The number of digits after the decimal point.
    pub precision: u8,
    /// The share of the values that counts as lowest, between zero and one.
    pub filter_fraction: Single,
    /// The key by which the rows are ordered.
    pub sort_key: i32,
}

impl PerfUiEntryFPSPctLow {
    /// Whether the entry has its default settings, and the given sort key.
    pub open spec fn is_default(&self, sort_key: i32) -> bool {
        &&& self.label@.len() == 0
        &&& self.color_gradient.wf()
        &&& self.color_gradient@ == ryg_stops(
            Single { bits: 0x41f0_0000 },
            Single { bits: 0x4270_0000 },
            Single { bits: 0x42f0_0000 },
        )
        &&& self.threshold_highlight == Some(Single { bits: 0x41a0_0000 })
        &&& self.max_value_hint is None
        &&& self.digits == 4
        &&& self.precision == 0
        &&& self.filter_fraction.bits == 0x3dcc_cccd
        &&& self.sort_key == sort_key
    }

    /// The entry with its default settings: red, yellow and green at 30, 60 and
    /// 120 frames per second, highlighted below 20, with four digits and no
    /// decimal places. The lowest tenth of the values counts.
    pub fn new(sort_key: i32) -> (e: Self)
        ensures
            e.is_default(sort_key),
    {
        PerfUiEntryFPSPctLow {
            label: String::new(),
            color_gradient: ColorGradient::new_preset_ryg(
                Single::from_bits(0x41f0_0000),
                Single::from_bits(0x4270_0000),
                Single::from_bits(0x42f0_0000),
            ).unwrap(),
            threshold_highlight: Some(Single::from_bits(0x41a0_0000)),
            max_value_hint: None,
            digits: 4,
            precision: 0,
            filter_fraction: Single::from_bits(0x3dcc_cccd),
            sort_key,
        }
    }
}

impl PerfUiEntry for PerfUiEntryFPSPctLow {
    type Value = Single;

    open spec fn label_text(&self) -> Seq<char> {
        label_or(self.label@, "FPS (low)"@)
    }

    open spec fn key(&self) -> i32 {
        self.sort_key
    }

    open spec fn text_of(&self, value: &Single) -> Seq<char> {
        float_text(self.digits, self.precision, value.widened())
    }

    open spec fn color_of(&self, value: &Single) -> Option<Shade> {
        checked_lookup(self.color_gradient@, *value)
    }

    open spec fn highlight_of(&self, value: &Single) -> bool {
        below(self.threshold_highlight, *value)
    }

    fn label(&self) -> (r: &str) {
        choose_label(&self.label, "FPS (low)")
    }

    fn sort_key(&self) -> (r: i32) {
        self.sort_key
    }

    fn format_value(&self, value: &Single) -> (r: String) {
        format_pretty_float(self.digits, self.precision, value.widen())
    }

    fn value_color(&self, value: &Single) -> (r: Option<Shade>) {
        self.color_gradient.color_for_value(*value)
    }

    fn value_highlight(&self, value: &Single) -> (r: bool) {
        is_below(self.threshold_highlight, *value)
    }
}

impl PerfUiEntryDisplayRange for PerfUiEntryFPSPctLow {
    open spec fn max_hint(&self) -> Option<Double> {
        widened_hint(upper_hint(self.max_value_hint, self.threshold_highlight, self.color_gradient@))
    }

    open spec fn min_hint(&self) -> Option<Double> {
        Some(Double { bits: 0 })
    }

    open spec fn number_of(&self, value: &Single) -> Option<Double> {
        Some(value.widened())
    }

    fn max_value_hint(&self) -> (r: Option<Double>) {
        widen_hint(get_upper_hint(self.max_value_hint, self.threshold_highlight, &self.color_gradient))
    }

    fn min_value_hint(&self) -> (r: Option<Double>) {
        Some(Double::zero())
    }

    fn value_number(&self, value: &Single) -> (r: Option<Double>) {
        Some(value.widen())
    }
}

/// The time that a frame takes, in milliseconds.
#[derive(Debug)]
pub struct PerfUiEntryFrameTime {
    /// The label of the row. If it is empty, the default label is used.
    pub label: String,
    /// Whether the unit (`ms`) is shown after the number.
    pub display_units: bool,
    /// The color by value. An empty gradient gives the default color.
    pub color_gradient: ColorGradient,
    /// A value above this threshold is highlighted.
    pub threshold_highlight: Option<Single>,
    /// The upper bound for widgets that show the value within a range. If
    /// there is none, it is made from the gradient and the threshold.
    pub max_value_hint: Option<Single>,
    /// Whether the smoothed value is shown, not the raw one.
    pub smoothed: bool,
    /// The number of digits of the whole part.
    pub digits: u8,
    /// The number of digits after the decimal point.
    pub precision: u8,
    /// The key by which the rows are ordered.
    pub sort_key: i32,
}

impl PerfUiEntryFrameTime {
    /// Whether the entry has its default settings, and the given sort key.
    pub open spec fn is_default(&self, sort_key: i32) -> bool {
        &&& self.label@.len() == 0
        &&& self.display_units
        &&& self.color_gradient.wf()
        &&& self.color_gradient@ == gyr_stops(
            Single { bits: 0x4105_5555 },
            Single { bits: 0x4185_5555 },
            Single { bits: 0x4205_5555 },
        )
        &&& self.threshold_highlight == Some(Single { bits: 0x4248_0000 })
        &&& self.max_value_hint is None
        &&& !self.smoothed
        &&& self.digits == 2
        &&& self.precision == 3
        &&& self.sort_key == sort_key
    }

    /// The entry with its default settings: green, yellow and red at the frame
    /// times of 120, 60 and 30 frames per second, highlighted above that of 20,
    /// in milliseconds with two digits and three decimal places. The raw value
    /// is shown.
    pub fn new(sort_key: i32) -> (e: Self)
        ensures
            e.is_default(sort_key),
    {
        PerfUiEntryFrameTime {
            label: String::new(),
            display_units: true,
            color_gradient: ColorGradient::new_preset_gyr(
                Single::from_bits(0x4105_5555),
                Single::from_bits(0x4185_5555),
                Single::from_bits(0x4205_5555),
            ).unwrap(),
            threshold_highlight: Some(Single::from_bits(0x4248_0000)),
            max_value_hint: None,
            smoothed: false,
            digits: 2,
            precision: 3,
            sort_key,
        }
    }
}

impl PerfUiEntry for PerfUiEntryFrameTime {
    type Value = Double;

    open spec fn label_text(&self) -> Seq<char> {
        label_or(self.label@, "Frame Time"@)
    }

    open spec fn key(&self) -> i32 {
        self.sort_key
    }

    open spec fn text_of(&self, value: &Double) -> Seq<char> {
        text_with_unit(float_text(self.digits, self.precision, *value), self.display_units, " ms"@)
    }

    open spec fn color_of(&self, value: &Double) -> Option<Shade> {
        checked_lookup(self.color_gradient@, value.narrowed())
    }

    open spec fn highlight_of(&self, value: &Double) -> bool {
        above(self.threshold_highlight, value.narrowed())
    }

    fn label(&self) -> (r: &str) {
        choose_label(&self.label, "Frame Time")
    }

    fn sort_key(&self) -> (r: i32) {
        self.sort_key
    }

    fn format_value(&self, value: &Double) -> (r: String) {
        add_unit(&format_pretty_float(self.digits, self.precision, *value), self.display_units, " ms")
    }

    fn value_color(&self, value: &Double) -> (r: Option<Shade>) {
        self.color_gradient.color_for_value(value.narrow())
    }

    fn value_highlight(&self, value: &Double) -> (r: bool) {
        is_above(self.threshold_highlight, value.narrow())
    }
}

impl PerfUiEntryDisplayRange for PerfUiEntryFrameTime {
    open spec fn max_hint(&self) -> Option<Double> {
        widened_hint(upper_hint(self.max_value_hint, self.threshold_highlight, self.color_gradient@))
    }

    open spec fn min_hint(&self) -> Option<Double> {
        Some(Double { bits: 0 })
    }

    open spec fn number_of(&self, value: &Double) -> Option<Double> {
        Some(*value)
    }

    fn max_value_hint(&self) -> (r: Option<Double>) {
        widen_hint(get_upper_hint(self.max_value_hint, self.threshold_highlight, &self.color_gradient))
    }

    fn min_value_hint(&self) -> (r: Option<Double>) {
        Some(Double::zero())
    }

    fn value_number(&self, value: &Double) -> (r: Option<Double>) {
        Some(*value)
    }
}

/// The time that a frame takes at its worst, in milliseconds: the highest
/// value of the recent past.
#[derive(Debug)]
pub struct PerfUiEntryFrameTimeWorst {
    /// The label of the row. If it is empty, the default label is used.
    pub label: String,
    /// Whether the unit (`ms`) is shown after the number.
    pub display_units: bool,
    /// The color by value. An empty gradient gives the default color.
    pub color_gradient: ColorGradient,
    /// A value above this threshold is highlighted.
    pub threshold_highlight: Option<Single>,
    /// The upper bound for widgets that show the value within a range. If
    /// there is none, it is made from the gradient and the threshold.
    pub max_value_hint: Option<Single>,
    /// The number of digits of the whole part.
    pub digits: u8,
    /// The number of digits after the decimal point.
    pub precision: u8,
    /// The key by which the rows are ordered.
    pub sort_key: i32,
}

impl PerfUiEntryFrameTimeWorst {
    /// Whether the entry has its default settings, and the given sort key.
    pub open spec fn is_default(&self, sort_key: i32) -> bool {
        &&& self.label@.len() == 0
        &&& self.display_units
        &&& self.color_gradient.wf()
        &&& self.color_gradient@ == gyr_stops(
            Single { bits: 0x4105_5555 },
            Single { bits: 0x4185_5555 },
            Single { bits: 0x4205_5555 },
        )
        &&& self.threshold_highlight == Some(Single { bits: 0x4248_0000 })
        &&& self.max_value_hint is None
        &&& self.digits == 2
        &&& self.precision == 3
        &&& self.sort_key == sort_key
    }

    /// The entry with its default settings: green, yellow and red at the frame
    /// times of 120, 60 and 30 frames per second, highlighted above that of 20,
    /// in milliseconds with two digits and three decimal places.
    pub fn new(sort_key: i32) -> (e: Self)
        ensures
            e.is_default(sort_key),
    {
        PerfUiEntryFrameTimeWorst {
            label: String::new(),
            display_units: true,
            color_gradient: ColorGradient::new_preset_gyr(
                Single::from_bits(0x4105_5555),
                Single::from_bits(0x4185_5555),
                Single::from_bits(0x4205_5555),
            ).unwrap(),
            threshold_highlight: Some(Single::from_bits(0x4248_0000)),
            max_value_hint: None,
            digits: 2,
            precision: 3,
            sort_key,
        }
    }
}

impl PerfUiEntry for PerfUiEntryFrameTimeWorst {
    type Value = Single;

    open spec fn label_text(&self) -> Seq<char> {
        label_or(self.label@, "Frame Time (max)"@)
    }

    open spec fn key(&self) -> i32 {
        self.sort_key
    }

    open spec fn text_of(&self, value: &Single) -> Seq<char> {
        text_with_unit(float_text(self.digits, self.precision, value.widened()), self.display_units, " ms"@)
    }

    open spec fn color_of(&self, value: &Single) -> Option<Shade> {
        checked_lookup(self.color_gradient@, *value)
    }

    open spec fn highlight_of(&self, value: &Single) -> bool {
        above(self.threshold_highlight, *value)
    }

    fn label(&self) -> (r: &str) {
        choose_label(&self.label, "Frame Time (max)")
    }

    fn sort_key(&self) -> (r: i32) {
        self.sort_key
    }

    fn format_value(&self, value: &Single) -> (r: String) {
        add_unit(&format_pretty_float(self.digits, self.precision, value.widen()), self.display_units, " ms")
    }

    fn value_color(&self, value: &Single) -> (r: Option<Shade>) {
        self.color_gradient.color_for_value(*value)
    }

    fn value_highlight(&self, value: &Single) -> (r: bool) {
        is_above(self.threshold_highlight, *value)
    }
}

impl PerfUiEntryDisplayRange for PerfUiEntryFrameTimeWorst {
    open spec fn max_hint(&self) -> Option<Double> {
        widened_hint(upper_hint(self.max_value_hint, self.threshold_highlight, self.color_gradient@))
    }

    open spec fn min_hint(&self) -> Option<Double> {
        Some(Double { bits: 0 })
    }

    open spec fn number_of(&self, value: &Single) -> Option<Double> {
        Some(value.widened())
    }

    fn max_value_hint(&self) -> (r: Option<Double>) {
        widen_hint(get_upper_hint(self.max_value_hint, self.threshold_highlight, &self.color_gradient))
    }

    fn min_value_hint(&self) -> (r: Option<Double>) {
        Some(Double::zero())
    }

    fn value_number(&self, value: &Single) -> (r: Option<Double>) {
        Some(value.widen())
    }
}

/// The share of the processor that this process uses, in percent.
#[derive(Debug)]
pub struct PerfUiEntryCpuUsage {
    /// The label of the row. If it is empty, the default label is used.
    pub label: String,
    /// The color by value. An empty gradient gives the default color.
    pub color_gradient: ColorGradient,
    /// A value above this threshold is highlighted.
    pub threshold_highlight: Option<Single>,
    /// Whether the smoothed value is shown, not the raw one.
    pub smoothed: bool,
    /// The number of digits after the decimal point.
    pub precision: u8,
    /// The key by which the rows are ordered.
    pub sort_key: i32,
}

impl PerfUiEntryCpuUsage {
    /// Whether the entry has its default settings, and the given sort key.
    pub open spec fn is_default(&self, sort_key: i32) -> bool {
        &&& self.label@.len() == 0
        &&& self.color_gradient.wf()
        &&& self.color_gradient@ == gyr_stops(
            Single { bits: 0x41c8_0000 },
            Single { bits: 0x4248_0000 },
            Single { bits: 0x4296_0000 },
        )
        &&& self.threshold_highlight == Some(Single { bits: 0x42b4_0000 })
        &&& self.smoothed
        &&& self.precision == 2
        &&& self.sort_key == sort_key
    }

    /// The entry with its default settings: green, yellow and red at 25, 50 and
    /// 75 percent, highlighted above 90, smoothed, with two decimal places.
    pub fn new(sort_key: i32) -> (e: Self)
        ensures
            e.is_default(sort_key),
    {
        PerfUiEntryCpuUsage {
            label: String::new(),
            color_gradient: ColorGradient::new_preset_gyr(
                Single::from_bits(0x41c8_0000),
                Single::from_bits(0x4248_0000),
                Single::from_bits(0x4296_0000),
            ).unwrap(),
            threshold_highlight: Some(Single::from_bits(0x42b4_0000)),
            smoothed: true,
            precision: 2,
            sort_key,
        }
    }
}

impl PerfUiEntry for PerfUiEntryCpuUsage {
    type Value = Double;

    open spec fn label_text(&self) -> Seq<char> {
        label_or(self.label@, "CPU Usage"@)
    }

    open spec fn key(&self) -> i32 {
        self.sort_key
    }

    open spec fn text_of(&self, value: &Double) -> Seq<char> {
        text_with_unit(float_text(2, self.precision, *value), true, "%"@)
    }

    open spec fn color_of(&self, value: &Double) -> Option<Shade> {
        checked_lookup(self.color_gradient@, value.narrowed())
    }

    open spec fn highlight_of(&self, value: &Double) -> bool {
        above(self.threshold_highlight, value.narrowed())
    }

    fn label(&self) -> (r: &str) {
        choose_label(&self.label, "CPU Usage")
    }

    fn sort_key(&self) -> (r: i32) {
        self.sort_key
    }

    fn format_value(&self, value: &Double) -> (r: String) {
        add_unit(&format_pretty_float(2, self.precision, *value), true, "%")
    }

    fn value_color(&self, value: &Double) -> (r: Option<Shade>) {
        self.color_gradient.color_for_value(value.narrow())
    }

    fn value_highlight(&self, value: &Double) -> (r: bool) {
        is_above(self.threshold_highlight, value.narrow())
    }
}

impl PerfUiEntryDisplayRange for PerfUiEntryCpuUsage {
    open spec fn max_hint(&self) -> Option<Double> {
        Some(Double { bits: DOUBLE_HUNDRED })
    }

    open spec fn min_hint(&self) -> Option<Double> {
        Some(Double { bits: 0 })
    }

    open spec fn number_of(&self, value: &Double) -> Option<Double> {
        Some(*value)
    }

    fn max_value_hint(&self) -> (r: Option<Double>) {
        Some(Double::from_bits(DOUBLE_HUNDRED))
    }

    fn min_value_hint(&self) -> (r: Option<Double>) {
        Some(Double::zero())
    }

    fn value_number(&self, value: &Double) -> (r: Option<Double>) {
        Some(*value)
    }
}

/// The share of the processor that the whole system uses, in percent.
#[derive(Debug)]
pub struct PerfUiEntrySystemCpuUsage {
    /// The label of the row. If it is empty, the default label is used.
    pub label: String,
    /// The color by value. An empty gradient gives the default color.
    pub color_gradient: ColorGradient,
    /// A value above this threshold is highlighted.
    pub threshold_highlight: Option<Single>,
    /// Whether the smoothed value is shown, not the raw one.
    pub smoothed: bool,
    /// The number of digits after the decimal point.
    pub precision: u8,
    /// The key by which the rows are ordered.
    pub sort_key: i32,
}

impl PerfUiEntrySystemCpuUsage {
    /// Whether the entry has its default settings, and the given sort key.
    pub open spec fn is_default(&self, sort_key: i32) -> bool {
        &&& self.label@.len() == 0
        &&& self.color_gradient.wf()
        &&& self.color_gradient@ == gyr_stops(
            Single { bits: 0x41c8_0000 },
            Single { bits: 0x4248_0000 },
            Single { bits: 0x4296_0000 },
        )
        &&& self.threshold_highlight == Some(Single { bits: 0x42b4_0000 })
        &&& self.smoothed
        &&& self.precision == 2
        &&& self.sort_key == sort_key
    }

    /// The entry with its default settings: green, yellow and red at 25, 50 and
    /// 75 percent, highlighted above 90, smoothed, with two decimal places.
    pub fn new(sort_key: i32) -> (e: Self)
        ensures
            e.is_default(sort_key),
    {
        PerfUiEntrySystemCpuUsage {
            label: String::new(),
            color_gradient: ColorGradient::new_preset_gyr(
                Single::from_bits(0x41c8_0000),
                Single::from_bits(0x4248_0000),
                Single::from_bits(0x4296_0000),
            ).unwrap(),
            threshold_highlight: Some(Single::from_bits(0x42b4_0000)),
            smoothed: true,
            precision: 2,
            sort_key,
        }
    }
}

impl PerfUiEntry for PerfUiEntrySystemCpuUsage {
    type Value = Double;

    open spec fn label_text(&self) -> Seq<char> {
        label_or(self.label@, "System CPU Usage"@)
    }

    open spec fn key(&self) -> i32 {
        self.sort_key
    }

    open spec fn text_of(&self, value: &Double) -> Seq<char> {
        text_with_unit(float_text(2, self.precision, *value), true, "%"@)
    }

    open spec fn color_of(&self, value: &Double) -> Option<Shade> {
        checked_lookup(self.color_gradient@, value.narrowed())
    }

    open spec fn highlight_of(&self, value: &Double) -> bool {
        above(self.threshold_highlight, value.narrowed())
    }

    fn label(&self) -> (r: &str) {
        choose_label(&self.label, "System CPU Usage")
    }

    fn sort_key(&self) -> (r: i32) {
        self.sort_key
    }

    fn format_value(&self, value: &Double) -> (r: String) {
        add_unit(&format_pretty_float(2, self.precision, *value), true, "%")
    }

    fn value_color(&self, value: &Double) -> (r: Option<Shade>) {
        self.color_gradient.color_for_value(value.narrow())
    }

    fn value_highlight(&self, value: &Double) -> (r: bool) {
        is_above(self.threshold_highlight, value.narrow())
    }
}

impl PerfUiEntryDisplayRange for PerfUiEntrySystemCpuUsage {
    open spec fn max_hint(&self) -> Option<Double> {
        Some(Double { bits: DOUBLE_HUNDRED })
    }

    open spec fn min_hint(&self) -> Option<Double> {
        Some(Double { bits: 0 })
    }

    open spec fn number_of(&self, value: &Double) -> Option<Double> {
        Some(*value)
    }

    fn max_value_hint(&self) -> (r: Option<Double>) {
        Some(Double::from_bits(DOUBLE_HUNDRED))
    }

    fn min_value_hint(&self) -> (r: Option<Double>) {
        Some(Double::zero())
    }

    fn value_number(&self, value: &Double) -> (r: Option<Double>) {
        Some(*value)
    }
}

/// The memory that this process uses, in GiB.
#[derive(Debug)]
pub struct PerfUiEntryMemUsage {
    /// The label of the row. If it is empty, the default label is used.
    pub label: String,
    /// Whether the unit (`GiB`) is shown after the number.
    pub display_units: bool,
    /// The color by value. An empty gradient gives the default color.
    pub color_gradient: ColorGradient,
    /// A value above this threshold is highlighted.
    pub threshold_highlight: Option<Single>,
    /// The upper bound for widgets that show the value within a range. If
    /// there is none, it is made from the gradient and the threshold.
    pub max_value_hint: Option<Single>,
    /// Whether the smoothed value is shown, not the raw one.
    pub smoothed: bool,
    /// The number of digits after the decimal point.
    pub precision: u8,
    /// The key by which the rows are ordered.
    pub sort_key: i32,
}

impl PerfUiEntryMemUsage {
    /// Whether the entry has its default settings, and the given sort key.
    pub open spec fn is_default(&self, sort_key: i32) -> bool {
        &&& self.label@.len() == 0
        &&& self.display_units
        &&& self.color_gradient.wf()
        &&& self.color_gradient@ == gyr_stops(
            Single { bits: 0x3f00_0000 },
            Single { bits: 0x3f80_0000 },
            Single { bits: 0x4000_0000 },
        )
        &&& self.threshold_highlight == Some(Single { bits: 0x4040_0000 })
        &&& self.max_value_hint == Some(Single { bits: 0x4080_0000 })
        &&& self.smoothed
        &&& self.precision == 3
        &&& self.sort_key == sort_key
    }

    /// The entry with its default settings: green, yellow and red at 0.5, 1 and
    /// 2 GiB, highlighted above 3, with an upper bound of 4, smoothed, with
    /// three decimal places.
    pub fn new(sort_key: i32) -> (e: Self)
        ensures
            e.is_default(sort_key),
    {
        PerfUiEntryMemUsage {
            label: String::new(),
            display_units: true,
            color_gradient: ColorGradient::new_preset_gyr(
                Single::from_bits(0x3f00_0000),
                Single::from_bits(0x3f80_0000),
                Single::from_bits(0x4000_0000),
            ).unwrap(),
            threshold_highlight: Some(Single::from_bits(0x4040_0000)),
            max_value_hint: Some(Single::from_bits(0x4080_0000)),
            smoothed: true,
            precision: 3,
            sort_key,
        }
    }
}

impl PerfUiEntry for PerfUiEntryMemUsage {
    type Value = Double;

    open spec fn label_text(&self) -> Seq<char> {
        label_or(self.label@, "RAM Usage"@)
    }

    open spec fn key(&self) -> i32 {
        self.sort_key
    }

    open spec fn text_of(&self, value: &Double) -> Seq<char> {
        text_with_unit(float_text(2, self.precision, *value), self.display_units, " GiB"@)
    }

    open spec fn color_of(&self, value: &Double) -> Option<Shade> {
        checked_lookup(self.color_gradient@, value.narrowed())
    }

    open spec fn highlight_of(&self, value: &Double) -> bool {
        above(self.threshold_highlight, value.narrowed())
    }

    fn label(&self) -> (r: &str) {
        choose_label(&self.label, "RAM Usage")
    }

    fn sort_key(&self) -> (r: i32) {
        self.sort_key
    }

    fn format_value(&self, value: &Double) -> (r: String) {
        add_unit(&format_pretty_float(2, self.precision, *value), self.display_units, " GiB")
    }

    fn value_color(&self, value: &Double) -> (r: Option<Shade>) {
        self.color_gradient.color_for_value(value.narrow())
    }

    fn value_highlight(&self, value: &Double) -> (r: bool) {
        is_above(self.threshold_highlight, value.narrow())
    }
}

impl PerfUiEntryDisplayRange for PerfUiEntryMemUsage {
    open spec fn max_hint(&self) -> Option<Double> {
        widened_hint(upper_hint(self.max_value_hint, self.threshold_highlight, self.color_gradient@))
    }

    open spec fn min_hint(&self) -> Option<Double> {
        Some(Double { bits: 0 })
    }

    open spec fn number_of(&self, value: &Double) -> Option<Double> {
        Some(*value)
    }

    fn max_value_hint(&self) -> (r: Option<Double>) {
        widen_hint(get_upper_hint(self.max_value_hint, self.threshold_highlight, &self.color_gradient))
    }

    fn min_value_hint(&self) -> (r: Option<Double>) {
        Some(Double::zero())
    }

    fn value_number(&self, value: &Double) -> (r: Option<Double>) {
        Some(*value)
    }
}

/// The share of the memory that the whole system uses, in percent.
#[derive(Debug)]
pub struct PerfUiEntrySystemMemUsage {
    /// The label of the row. If it is empty, the default label is used.
    pub label: String,
    /// The color by value. An empty gradient gives the default color.
    pub color_gradient: ColorGradient,
    /// A value above this threshold is highlighted.
    pub threshold_highlight: Option<Single>,
    /// Whether the smoothed value is shown, not the raw one.
    pub smoothed: bool,
    /// The number of digits after the decimal point.
    pub precision: u8,
    /// The key by which the rows are ordered.
    pub sort_key: i32,
}

impl PerfUiEntrySystemMemUsage {
    /// Whether the entry has its default settings, and the given sort key.
    pub open spec fn is_default(&self, sort_key: i32) -> bool {
        &&& self.label@.len() == 0
        &&& self.color_gradient.wf()
        &&& self.color_gradient@ == gyr_stops(
            Single { bits: 0x41c8_0000 },
            Single { bits: 0x4248_0000 },
            Single { bits: 0x4296_0000 },
        )
        &&& self.threshold_highlight == Some(Single { bits: 0x42b4_0000 })
        &&& self.smoothed
        &&& self.precision == 2
        &&& self.sort_key == sort_key
    }

    /// The entry with its default settings: green, yellow and red at 25, 50 and
    /// 75 percent, highlighted above 90, smoothed, with two decimal places.
    pub fn new(sort_key: i32) -> (e: Self)
        ensures
            e.is_default(sort_key),
    {
        PerfUiEntrySystemMemUsage {
            label: String::new(),
            color_gradient: ColorGradient::new_preset_gyr(
                Single::from_bits(0x41c8_0000),
                Single::from_bits(0x4248_0000),
                Single::from_bits(0x4296_0000),
            ).unwrap(),
            threshold_highlight: Some(Single::from_bits(0x42b4_0000)),
            smoothed: true,
            precision: 2,
            sort_key,
        }
    }
}

impl PerfUiEntry for PerfUiEntrySystemMemUsage {
    type Value = Double;

    open spec fn label_text(&self) -> Seq<char> {
        label_or(self.label@, "System RAM Usage"@)
    }

    open spec fn key(&self) -> i32 {
        self.sort_key
    }

    open spec fn text_of(&self, value: &Double) -> Seq<char> {
        text_with_unit(float_text(2, self.precision, *value), true, "%"@)
    }

    open spec fn color_of(&self, value: &Double) -> Option<Shade> {
        checked_lookup(self.color_gradient@, value.narrowed())
    }

    open spec fn highlight_of(&self, value: &Double) -> bool {
        above(self.threshold_highlight, value.narrowed())
    }

    fn label(&self) -> (r: &str) {
        choose_label(&self.label, "System RAM Usage")
    }

    fn sort_key(&self) -> (r: i32) {
        self.sort_key
    }

    fn format_value(&self, value: &Double) -> (r: String) {
        add_unit(&format_pretty_float(2, self.precision, *value), true, "%")
    }

    fn value_color(&self, value: &Double) -> (r: Option<Shade>) {
        self.color_gradient.color_for_value(value.narrow())
    }

    fn value_highlight(&self, value: &Double) -> (r: bool) {
        is_above(self.threshold_highlight, value.narrow())
    }
}

impl PerfUiEntryDisplayRange for PerfUiEntrySystemMemUsage {
    open spec fn max_hint(&self) -> Option<Double> {
        Some(Double { bits: DOUBLE_HUNDRED })
    }

    open spec fn min_hint(&self) -> Option<Double> {
        Some(Double { bits: 0 })
    }

    open spec fn number_of(&self, value: &Double) -> Option<Double> {
        Some(*value)
    }

    fn max_value_hint(&self) -> (r: Option<Double>) {
        Some(Double::from_bits(DOUBLE_HUNDRED))
    }

    fn min_value_hint(&self) -> (r: Option<Double>) {
        Some(Double::zero())
    }

    fn value_number(&self, value: &Double) -> (r: Option<Double>) {
        Some(*value)
    }
}

/// The lowest of the values that are not NaN, if there is one: of several
/// that are equal, the first.
pub open spec fn lowest(values: Seq<Single>) -> Option<Single>
    decreases values.len(),
{
    if values.len() == 0 {
        None
    } else {
        let x = values.last();
        match lowest(values.drop_last()) {
            None => if x.nan() {
                None
            } else {
                Some(x)
            },
            Some(m) => if !x.nan() && x.key() < m.key() {
                Some(x)
            } else {
                Some(m)
            },
        }
    }
}

/// The highest of the values that are not NaN, if there is one: of several
/// that are equal, the last.
pub open spec fn highest(values: Seq<Single>) -> Option<Single>
    decreases values.len(),
{
    if values.len() == 0 {
        None
    } else {
        let x = values.last();
        match highest(values.drop_last()) {
            None => if x.nan() {
                None
            } else {
                Some(x)
            },
            Some(m) => if !x.nan() && x.key() >= m.key() {
                Some(x)
            } else {
                Some(m)
            },
        }
    }
}

/// The lowest of the values is one of them, is no NaN, and lies above none of
/// those that are not NaN. There is none only if all are NaN.
pub proof fn lemma_lowest(values: Seq<Single>)
    ensures
        lowest(values) is None <==> forall|i: int| 0 <= i < values.len() ==> (#[trigger] values[i]).nan(),
        lowest(values) matches Some(m) ==> !m.nan() && values.contains(m) && forall|i: int|
            0 <= i < values.len() && !(#[trigger] values[i]).nan() ==> m.key() <= values[i].key(),
    decreases values.len(),
{
    if values.len() > 0 {
        let rest = values.drop_last();
        lemma_lowest(rest);
        assert forall|i: int| 0 <= i < rest.len() implies rest[i] == values[i] by {}
        match lowest(values) {
            Some(m) => {
                if lowest(rest) == Some(m) {
                    let k = choose|k: int| 0 <= k < rest.len() && rest[k] == m;
                    assert(values[k] == m);
                } else {
                    assert(values[values.len() - 1] == m);
                }
                assert forall|i: int| 0 <= i < values.len() && !(#[trigger] values[i]).nan() implies m.key()
                    <= values[i].key() by {
                    if i < rest.len() {
                        assert(!rest[i].nan());
                    }
                }
            },
            None => {
                assert forall|i: int| 0 <= i < values.len() implies (#[trigger] values[i]).nan() by {
                    if i < rest.len() {
                        assert(rest[i].nan());
                    }
                }
            },
        }
        if forall|i: int| 0 <= i < values.len() ==> (#[trigger] values[i]).nan() {
            assert(values[values.len() - 1].nan());
            assert forall|i: int| 0 <= i < rest.len() implies (#[trigger] rest[i]).nan() by {
                assert(values[i].nan());
            }
        }
    }
}

/// The highest of the values is one of them, is no NaN, and lies below none
/// of those that are not NaN. There is none only if all are NaN.
pub proof fn lemma_highest(values: Seq<Single>)
    ensures
        highest(values) is None <==> forall|i: int| 0 <= i < values.len() ==> (#[trigger] values[i]).nan(),
        highest(values) matches Some(m) ==> !m.nan() && values.contains(m) && forall|i: int|
            0 <= i < values.len() && !(#[trigger] values[i]).nan() ==> m.key() >= values[i].key(),
    decreases values.len(),
{
    if values.len() > 0 {
        let rest = values.drop_last();
        lemma_highest(rest);
        assert forall|i: int| 0 <= i < rest.len() implies rest[i] == values[i] by {}
        match highest(values) {
            Some(m) => {
                if highest(rest) == Some(m) && !(!values.last().nan() && values.last().key() >= m.key()) {
                    let k = choose|k: int| 0 <= k < rest.len() && rest[k] == m;
                    assert(values[k] == m);
                } else {
                    assert(values[values.len() - 1] == m);
                }
                assert forall|i: int| 0 <= i < values.len() && !(#[trigger] values[i]).nan() implies m.key()
                    >= values[i].key() by {
                    if i < rest.len() {
                        assert(!rest[i].nan());
                    }
                }
            },
            None => {
                assert forall|i: int| 0 <= i < values.len() implies (#[trigger] values[i]).nan() by {
                    if i < rest.len() {
                        assert(rest[i].nan());
                    }
                }
            },
        }
        if forall|i: int| 0 <= i < values.len() ==> (#[trigger] values[i]).nan() {
            assert(values[values.len() - 1].nan());
            assert forall|i: int| 0 <= i < rest.len() implies (#[trigger] rest[i]).nan() by {
                assert(values[i].nan());
            }
        }
    }
}

/// The lowest of the values that are not NaN: see [`lowest`].
pub fn find_lowest(values: &Vec<Single>) -> (r: Option<Single>)
    ensures
        r == lowest(values@),
{
    let mut best: Option<Single> = None;
    let mut i: usize = 0;
    while i < values.len()
        invariant
            i <= values@.len(),
            best == lowest(values@.take(i as int)),
        decreases values@.len() - i,
    {
        let x: Single = values[i];
        proof {
            let next = values@.take(i + 1);
            assert(next.drop_last() =~= values@.take(i as int));
            assert(next.last() == x);
        }
        best = match best {
            None => if x.is_nan() {
                None
            } else {
                Some(x)
            },
            Some(m) => if !x.is_nan() && x.order_key() < m.order_key() {
                Some(x)
            } else {
                Some(m)
            },
        };
        i = i + 1;
    }
    proof {
        assert(values@.take(values@.len() as int) =~= values@);
    }
    best
}

/// The highest of the values that are not NaN: see [`highest`].
pub fn find_highest(values: &Vec<Single>) -> (r: Option<Single>)
    ensures
        r == highest(values@),
{
    let mut best: Option<Single> = None;
    let mut i: usize = 0;
    while i < values.len()
        invariant
            i <= values@.len(),
            best == highest(values@.take(i as int)),
        decreases values@.len() - i,
    {
        let x: Single = values[i];
        proof {
            let next = values@.take(i + 1);
            assert(next.drop_last() =~= values@.take(i as int));
            assert(next.last() == x);
        }
        best = match best {
            None => if x.is_nan() {
                None
            } else {
                Some(x)
            },
            Some(m) => if !x.is_nan() && x.order_key() >= m.order_key() {
                Some(x)
            } else {
                Some(m)
            },
        };
        i = i + 1;
    }
    proof {
        assert(values@.take(values@.len() as int) =~= values@);
    }
    best
}

impl PerfUiEntryFPSWorst {
    /// The value of a tick: the lowest frame rate of the recent past, which is
    /// handed over in single precision. The values that are NaN do not count,
    /// and there is no value if no other is there.
    pub fn update_value(&self, history: &Vec<Single>) -> (r: Option<Single>)
        ensures
            r == lowest(history@),
    {
        find_lowest(history)
    }
}

impl PerfUiEntryFrameTimeWorst {
    /// The value of a tick: the highest frame time of the recent past, which
    /// is handed over in single precision. The values that are NaN do not
    /// count, and there is no value if no other is there.
    pub fn update_value(&self, history: &Vec<Single>) -> (r: Option<Single>)
        ensures
            r == highest(history@),
    {
        find_highest(history)
    }
}

/// The number of frames drawn so far.
#[derive(Debug)]
pub struct PerfUiEntryFrameCount {
    /// The label of the row. If it is empty, the default label is used.
    pub label: String,
    /// The number of digits.
    pub digits: u8,
    /// The key by which the rows are ordered.
    pub sort_key: i32,
}

impl PerfUiEntryFrameCount {
    /// Whether the entry has its default settings, and the given sort key.
    pub open spec fn is_default(&self, sort_key: i32) -> bool {
        &&& self.label@.len() == 0
        &&& self.digits == 6
        &&& self.sort_key == sort_key
    }

    /// The entry with its default settings: six digits.
    pub fn new(sort_key: i32) -> (e: Self)
        ensures
            e.is_default(sort_key),
    {
        PerfUiEntryFrameCount { label: String::new(), digits: 6, sort_key }
    }
}

impl PerfUiEntry for PerfUiEntryFrameCount {
    type Value = u32;

    open spec fn label_text(&self) -> Seq<char> {
        label_or(self.label@, "Frame Count"@)
    }

    open spec fn key(&self) -> i32 {
        self.sort_key
    }

    open spec fn text_of(&self, value: &u32) -> Seq<char> {
        signed_decimal(clamped_int(self.digits, *value as int))
    }

    open spec fn color_of(&self, value: &u32) -> Option<Shade> {
        None
    }

    open spec fn highlight_of(&self, value: &u32) -> bool {
        false
    }

    fn label(&self) -> (r: &str) {
        choose_label(&self.label, "Frame Count")
    }

    fn sort_key(&self) -> (r: i32) {
        self.sort_key
    }

    fn format_value(&self, value: &u32) -> (r: String) {
        format_pretty_int(self.digits, *value as i64)
    }

    fn value_color(&self, value: &u32) -> (r: Option<Shade>) {
        None
    }

    fn value_highlight(&self, value: &u32) -> (r: bool) {
        false
    }
}

/// The upper bound of an entry that counts: the bound that was set, if one
/// was; otherwise the larger of the threshold and the whole part of the
/// highest value of the gradient, or the one of them that is there.
pub open spec fn upper_count_hint(given: Option<u32>, threshold: Option<u32>, stops: Seq<Stop>) -> Option<
    u32,
> {
    match given {
        Some(g) => Some(g),
        None => if stops.len() == 0 {
            threshold
        } else {
            let top = stops.last().value.whole_u32() as u32;
            match threshold {
                Some(t) => Some(if t >= top {
                    t
                } else {
                    top
                }),
                None => Some(top),
            }
        },
    }
}

/// The lower bound of an entry that counts: the whole part of the lowest value
/// of its gradient, and none if the gradient has no stop. Without a bound
/// that was set, a bar over the entry so begins where its colors begin.
pub open spec fn lower_count_hint(stops: Seq<Stop>) -> Option<u32> {
    if stops.len() == 0 {
        None
    } else {
        Some(stops[0].value.whole_u32() as u32)
    }
}

/// A count as a bound in double precision.
pub open spec fn count_hint(hint: Option<u32>) -> Option<Double> {
    match hint {
        Some(h) => Some(Double::of_u32(h)),
        None => None,
    }
}

/// The number of entities that are alive.
#[derive(Debug)]
pub struct PerfUiEntryEntityCount {
    /// The label of the row. If it is empty, the default label is used.
    pub label: String,
    /// The color by value. An empty gradient gives the default color.
    pub color_gradient: ColorGradient,
    /// A value above this threshold is highlighted.
    pub threshold_highlight: Option<u32>,
    /// The upper bound for widgets that show the value within a range. If
    /// there is none, it is made from the gradient and the threshold.
    pub max_value_hint: Option<u32>,
    /// The number of digits.
    pub digits: u8,
    /// The key by which the rows are ordered.
    pub sort_key: i32,
}

impl PerfUiEntryEntityCount {
    /// Whether the entry has its default settings, and the given sort key.
    pub open spec fn is_default(&self, sort_key: i32) -> bool {
        &&& self.label@.len() == 0
        &&& self.color_gradient.wf()
        &&& self.color_gradient@ == gyr_stops(
            Single { bits: 0x42c8_0000 },
            Single { bits: 0x447a_0000 },
            Single { bits: 0x461c_4000 },
        )
        &&& self.threshold_highlight == Some(20000u32)
        &&& self.max_value_hint is None
        &&& self.digits == 6
        &&& self.sort_key == sort_key
    }

    /// The entry with its default settings: green, yellow and red at 100,
    /// 1000 and 10000 entities, highlighted above 20000, with six digits.
    pub fn new(sort_key: i32) -> (e: Self)
        ensures
            e.is_default(sort_key),
    {
        PerfUiEntryEntityCount {
            label: String::new(),
            color_gradient: ColorGradient::new_preset_gyr(
                Single::from_bits(0x42c8_0000),
                Single::from_bits(0x447a_0000),
                Single::from_bits(0x461c_4000),
            ).unwrap(),
            threshold_highlight: Some(20000),
            max_value_hint: None,
            digits: 6,
            sort_key,
        }
    }

    /// The lower bound as a count: see [`lower_count_hint`].
    pub fn min_count_hint(&self) -> (r: Option<u32>)
        ensures
            r == lower_count_hint(self.color_gradient@),
    {
        match self.color_gradient.min_stop() {
            Some(stop) => Some(stop.value.to_u32()),
            None => None,
        }
    }

    /// The upper bound as a count: see [`upper_count_hint`].
    pub fn max_count_hint(&self) -> (r: Option<u32>)
        ensures
            r == upper_count_hint(self.max_value_hint, self.threshold_highlight, self.color_gradient@),
    {
        match self.max_value_hint {
            Some(g) => Some(g),
            None => match (self.threshold_highlight, self.color_gradient.max_stop()) {
                (Some(t), None) => Some(t),
                (None, Some(stop)) => Some(stop.value.to_u32()),
                (Some(t), Some(stop)) => {
                    let top: u32 = stop.value.to_u32();
                    Some(if t >= top {
                        t
                    } else {
                        top
                    })
                },
                (None, None) => None,
            },
        }
    }
}

impl PerfUiEntry for PerfUiEntryEntityCount {
    type Value = u32;

    open spec fn label_text(&self) -> Seq<char> {
        label_or(self.label@, "Entity Count"@)
    }

    open spec fn key(&self) -> i32 {
        self.sort_key
    }

    open spec fn text_of(&self, value: &u32) -> Seq<char> {
        signed_decimal(clamped_int(self.digits, *value as int))
    }

    open spec fn color_of(&self, value: &u32) -> Option<Shade> {
        checked_lookup(self.color_gradient@, Single::nearest_u32(*value))
    }

    open spec fn highlight_of(&self, value: &u32) -> bool {
        match self.threshold_highlight {
            Some(t) => *value > t,
            None => false,
        }
    }

    fn label(&self) -> (r: &str) {
        choose_label(&self.label, "Entity Count")
    }

    fn sort_key(&self) -> (r: i32) {
        self.sort_key
    }

    fn format_value(&self, value: &u32) -> (r: String) {
        format_pretty_int(self.digits, *value as i64)
    }

    fn value_color(&self, value: &u32) -> (r: Option<Shade>) {
        self.color_gradient.color_for_value(Single::from_u32(*value))
    }

    fn value_highlight(&self, value: &u32) -> (r: bool) {
        match self.threshold_highlight {
            Some(t) => *value > t,
            None => false,
        }
    }
}

impl PerfUiEntryDisplayRange for PerfUiEntryEntityCount {
    open spec fn max_hint(&self) -> Option<Double> {
        count_hint(upper_count_hint(self.max_value_hint, self.threshold_highlight, self.color_gradient@))
    }

    open spec fn min_hint(&self) -> Option<Double> {
        count_hint(lower_count_hint(self.color_gradient@))
    }

    open spec fn number_of(&self, value: &u32) -> Option<Double> {
        Some(Double::of_u32(*value))
    }

    fn max_value_hint(&self) -> (r: Option<Double>) {
        match self.max_count_hint() {
            Some(h) => Some(Double::from_u32(h)),
            None => None,
        }
    }

    fn min_value_hint(&self) -> (r: Option<Double>) {
        match self.min_count_hint() {
            Some(h) => Some(Double::from_u32(h)),
            None => None,
        }
    }

    fn value_number(&self, value: &u32) -> (r: Option<Double>) {
        Some(Double::from_u32(*value))
    }
}

} // verus!
