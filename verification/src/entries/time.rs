//! Entries for the time: the running time, the time of day, and the fixed
//! time step.

use vstd::prelude::*;
use vstd::string::*;
use chrono::{TimeZone, Timelike};
use crate::entry::{
    add_unit, choose_label, label_or, text_with_unit, PerfUiEntry, PerfUiEntryDisplayRange,
};
use crate::format::{format_pretty_time, format_pretty_time_hms, hms_text, time_text, TimeSpan};
use crate::float_format::{float_text, format_pretty_float};
use crate::gradient::Shade;
use crate::ieee::{Double, DOUBLE_HUNDRED};

verus! {

/// The nanoseconds of a second.
pub const NANOS_PER_SEC: u32 = 1_000_000_000;

/// A time of day: hours, minutes, seconds, and the nanoseconds past the
/// second.
pub type ClockTime = (u32, u32, u32, u32);

/// The length of a span in nanoseconds.
pub open spec fn total_nanos(span: TimeSpan) -> int {
    span.secs * NANOS_PER_SEC + span.nanos
}

/// The span from `start` to `now`: its seconds and the nanoseconds below a
/// second.
pub open spec fn span_since(now: TimeSpan, start: TimeSpan) -> TimeSpan {
    if now.nanos >= start.nanos {
        TimeSpan { secs: (now.secs - start.secs) as u64, nanos: (now.nanos - start.nanos) as u32 }
    } else {
        TimeSpan {
            secs: (now.secs - start.secs - 1) as u64,
            nanos: (now.nanos + NANOS_PER_SEC - start.nanos) as u32,
        }
    }
}

/// The span from `start` to `now`, for a start that is not later than now:
/// as long as the two are apart, with less than a second in its nanoseconds.
pub fn since(now: TimeSpan, start: TimeSpan) -> (r: TimeSpan)
    requires
        now.nanos < NANOS_PER_SEC,
        start.nanos < NANOS_PER_SEC,
        total_nanos(start) <= total_nanos(now),
    ensures
        r == span_since(now, start),
        r.nanos < NANOS_PER_SEC,
        total_nanos(r) == total_nanos(now) - total_nanos(start),
{
    if now.nanos >= start.nanos {
        TimeSpan { secs: now.secs - start.secs, nanos: now.nanos - start.nanos }
    } else {
        TimeSpan { secs: now.secs - start.secs - 1, nanos: now.nanos + NANOS_PER_SEC - start.nanos }
    }
}

/// The time of day, by the clock of Greenwich, at a time given as the span
/// since the first second of 1970: leap seconds do not count.
pub open spec fn utc_clock_of(since_epoch: TimeSpan) -> ClockTime {
    (
        ((since_epoch.secs / 3600) % 24) as u32,
        ((since_epoch.secs / 60) % 60) as u32,
        (since_epoch.secs % 60) as u32,
        since_epoch.nanos,
    )
}

/// The time of day, by the clock of Greenwich: see [`utc_clock_of`].
pub fn utc_clock(since_epoch: TimeSpan) -> (r: ClockTime)
    ensures
        r == utc_clock_of(since_epoch),
        r.0 < 24,
        r.1 < 60,
        r.2 < 60,
{
    let secs: u64 = since_epoch.secs;
    (((secs / 3600) % 24) as u32, ((secs / 60) % 60) as u32, (secs % 60) as u32, since_epoch.nanos)
}

/// The time of day by the local clock of this machine, at a time given as the
/// span since the first second of 1970.
///
/// This is `TimeZone::timestamp_opt` of `chrono` on `Local`, and the hour,
/// minute, second and nanoseconds of what it returns. The time zone of the
/// machine decides the result, so the contract says only what holds of every
/// time of day: the hour lies below 24, the minute and the second below 60.
/// There is no result where `chrono` has none for the time.
#[verifier::external_body]
fn local_clock(secs: u64, nanos: u32) -> (r: Option<ClockTime>)
    requires
        secs <= i64::MAX,
    ensures
        r matches Some(c) ==> c.0 < 24 && c.1 < 60 && c.2 < 60,
{
    match chrono::Local.timestamp_opt(secs as i64, nanos).single() {
        Some(t) => Some((t.hour(), t.minute(), t.second(), t.timestamp_subsec_nanos())),
        None => None,
    }
}

/// A running time as an entry takes it: the span, and its length in seconds
/// as a number.
#[derive(Clone, Copy, Debug, PartialEq, Eq, Structural)]
pub struct Elapsed {
    pub span: TimeSpan,
    pub seconds: Double,
}

/// The time that the application has been running.
#[derive(Debug)]
pub struct PerfUiEntryRunningTime {
    /// The label of the row. If it is empty, the default label is used.
    pub label: String,
    /// The time from which the running time counts, as a span since the
    /// start of the application. If there is none, it counts from the start.
    pub start: Option<TimeSpan>,
    /// Whether the time is shown as hours, minutes and seconds. If not, it is
    /// shown in seconds.
    pub format_hms: bool,
    /// Whether the unit (`s`) is shown after the seconds.
    pub display_units: bool,
    /// The number of digits of the whole seconds.
    pub digits: u8,
    /// The number of digits after the decimal point.
    pub precision: u8,
    /// The key by which the rows are ordered.
    pub sort_key: i32,
}

impl PerfUiEntryRunningTime {
    /// Whether the entry has its default settings, and the given sort key.
    pub open spec fn is_default(&self, sort_key: i32) -> bool {
        &&& self.label@.len() == 0
        &&& self.start is None
        &&& !self.format_hms
        &&& self.display_units
        &&& self.digits == 5
        &&& self.precision == 3
        &&& self.sort_key == sort_key
    }

    /// The entry with its default settings: counting from the start of the
    /// application, in seconds with five digits, three decimal places and
    /// the unit.
    pub fn new(sort_key: i32) -> (e: Self)
        ensures
            e.is_default(sort_key),
    {
        PerfUiEntryRunningTime {
            label: String::new(),
            start: None,
            format_hms: false,
            display_units: true,
            digits: 5,
            precision: 3,
            sort_key,
        }
    }

    /// The running time at a tick: the time since the start of the
    /// application, or since the start that is set. A start that is set must
    /// not lie after the tick.
    pub fn update_value(&self, elapsed: TimeSpan) -> (r: Option<TimeSpan>)
        requires
            elapsed.nanos < NANOS_PER_SEC,
            self.start matches Some(start) ==> start.nanos < NANOS_PER_SEC && total_nanos(start) <= total_nanos(
                elapsed,
            ),
        ensures
            r == Some(
                match self.start {
                    Some(start) => span_since(elapsed, start),
                    None => elapsed,
                },
            ),
    {
        match self.start {
            Some(start) => Some(since(elapsed, start)),
            None => Some(elapsed),
        }
    }
}

impl PerfUiEntry for PerfUiEntryRunningTime {
    type Value = Elapsed;

    open spec fn label_text(&self) -> Seq<char> {
        label_or(self.label@, "Running Time"@)
    }

    open spec fn key(&self) -> i32 {
        self.sort_key
    }

    open spec fn text_of(&self, value: &Elapsed) -> Seq<char> {
        if self.format_hms {
            time_text(self.precision, value.span)
        } else {
            text_with_unit(float_text(self.digits, self.precision, value.seconds), self.display_units, " s"@)
        }
    }

    open spec fn color_of(&self, value: &Elapsed) -> Option<Shade> {
        None
    }

    open spec fn highlight_of(&self, value: &Elapsed) -> bool {
        false
    }

    fn label(&self) -> (r: &str) {
        choose_label(&self.label, "Running Time")
    }

    fn sort_key(&self) -> (r: i32) {
        self.sort_key
    }

    fn format_value(&self, value: &Elapsed) -> (r: String) {
        if self.format_hms {
            format_pretty_time(self.precision, value.span)
        } else {
            add_unit(&format_pretty_float(self.digits, self.precision, value.seconds), self.display_units, " s")
        }
    }

    fn value_color(&self, value: &Elapsed) -> (r: Option<Shade>) {
        None
    }

    fn value_highlight(&self, value: &Elapsed) -> (r: bool) {
        false
    }
}

/// The time of day.
#[derive(Debug)]
pub struct PerfUiEntryClock {
    /// The label of the row. If it is empty, the default label is used.
    pub label: String,
    /// Whether the time is shown by the clock of Greenwich, not by the local
    /// clock.
    pub prefer_utc: bool,
    /// The number of digits after the decimal point of the seconds.
    pub precision: u8,
    /// The key by which the rows are ordered.
    pub sort_key: i32,
}

impl PerfUiEntryClock {
    /// Whether the entry has its default settings, and the given sort key.
    pub open spec fn is_default(&self, sort_key: i32) -> bool {
        &&& self.label@.len() == 0
        &&& !self.prefer_utc
        &&& self.precision == 0
        &&& self.sort_key == sort_key
    }

    /// The entry with its default settings: the local clock, in whole
    /// seconds.
    pub fn new(sort_key: i32) -> (e: Self)
        ensures
            e.is_default(sort_key),
    {
        PerfUiEntryClock { label: String::new(), prefer_utc: false, precision: 0, sort_key }
    }

    /// The time of day at a tick, from the time of the system as a span since
    /// the first second of 1970, or none if the system has none to give.
    ///
    /// By the clock of Greenwich the time of day is that of
    /// [`utc_clock_of`]. By the local clock it is what the time zone of the
    /// machine makes of the time; there is none for a time beyond the years
    /// that have a date. Every time of day has an hour below 24 and a minute
    /// and a second below 60.
    pub fn update_value(&self, since_epoch: Option<TimeSpan>) -> (r: Option<ClockTime>)
        ensures
            since_epoch is None ==> r is None,
            self.prefer_utc ==> r == (match since_epoch {
                Some(t) => Some(utc_clock_of(t)),
                None => None,
            }),
            !self.prefer_utc && (since_epoch matches Some(t) && t.secs > i64::MAX) ==> r is None,
            r matches Some(c) ==> c.0 < 24 && c.1 < 60 && c.2 < 60,
    {
        match since_epoch {
            Some(t) => {
                if self.prefer_utc {
                    Some(utc_clock(t))
                } else if t.secs <= 0x7fff_ffff_ffff_ffff {
                    local_clock(t.secs, t.nanos)
                } else {
                    None
                }
            },
            None => None,
        }
    }
}

impl PerfUiEntry for PerfUiEntryClock {
    type Value = ClockTime;

    open spec fn label_text(&self) -> Seq<char> {
        if self.prefer_utc {
            label_or(self.label@, "Clock (UTC)"@)
        } else {
            label_or(self.label@, "Clock"@)
        }
    }

    open spec fn key(&self) -> i32 {
        self.sort_key
    }

    open spec fn text_of(&self, value: &ClockTime) -> Seq<char> {
        hms_text(self.precision, value.0, value.1, value.2, value.3)
    }

    open spec fn color_of(&self, value: &ClockTime) -> Option<Shade> {
        None
    }

    open spec fn highlight_of(&self, value: &ClockTime) -> bool {
        false
    }

    fn label(&self) -> (r: &str) {
        if self.prefer_utc {
            choose_label(&self.label, "Clock (UTC)")
        } else {
            choose_label(&self.label, "Clock")
        }
    }

    fn sort_key(&self) -> (r: i32) {
        self.sort_key
    }

    fn format_value(&self, value: &ClockTime) -> (r: String) {
        format_pretty_time_hms(self.precision, value.0, value.1, value.2, value.3)
    }

    fn value_color(&self, value: &ClockTime) -> (r: Option<Shade>) {
        None
    }

    fn value_highlight(&self, value: &ClockTime) -> (r: bool) {
        false
    }
}

/// The duration of the fixed time step, or its rate.
#[derive(Debug)]
pub struct PerfUiEntryFixedTimeStep {
    /// The label of the row. If it is empty, the default label is used.
    pub label: String,
    /// Whether the unit (`ms` or `Hz`) is shown after the number.
    pub display_units: bool,
    /// Whether the step is shown as a rate in Hz, not as a duration in
    /// milliseconds.
    pub as_hz: bool,
    /// The number of digits of the whole part.
    pub digits: u8,
    /// The number of digits after the decimal point.
    pub precision: u8,
    /// The key by which the rows are ordered.
    pub sort_key: i32,
}

impl PerfUiEntryFixedTimeStep {
    /// Whether the entry has its default settings, and the given sort key.
    pub open spec fn is_default(&self, sort_key: i32) -> bool {
        &&& self.label@.len() == 0
        &&& self.display_units
        &&& self.as_hz
        &&& self.digits == 3
        &&& self.precision == 2
        &&& self.sort_key == sort_key
    }

    /// The entry with its default settings: the rate in Hz, with three
    /// digits, two decimal places and the unit.
    pub fn new(sort_key: i32) -> (e: Self)
        ensures
            e.is_default(sort_key),
    {
        PerfUiEntryFixedTimeStep {
            label: String::new(),
            display_units: true,
            as_hz: true,
            digits: 3,
            precision: 2,
            sort_key,
        }
    }
}

impl PerfUiEntry for PerfUiEntryFixedTimeStep {
    /// The rate in Hz, or the duration in milliseconds, whichever is shown.
    type Value = Double;

    open spec fn label_text(&self) -> Seq<char> {
        label_or(self.label@, "Fixed Time Step"@)
    }

    open spec fn key(&self) -> i32 {
        self.sort_key
    }

    open spec fn text_of(&self, value: &Double) -> Seq<char> {
        if self.as_hz {
            text_with_unit(float_text(self.digits, self.precision, *value), self.display_units, " Hz"@)
        } else {
            text_with_unit(float_text(self.digits, self.precision, *value), self.display_units, " ms"@)
        }
    }

    open spec fn color_of(&self, value: &Double) -> Option<Shade> {
        None
    }

    open spec fn highlight_of(&self, value: &Double) -> bool {
        false
    }

    fn label(&self) -> (r: &str) {
        choose_label(&self.label, "Fixed Time Step")
    }

    fn sort_key(&self) -> (r: i32) {
        self.sort_key
    }

    fn format_value(&self, value: &Double) -> (r: String) {
        if self.as_hz {
            add_unit(&format_pretty_float(self.digits, self.precision, *value), self.display_units, " Hz")
        } else {
            add_unit(&format_pretty_float(self.digits, self.precision, *value), self.display_units, " ms")
        }
    }

    fn value_color(&self, value: &Double) -> (r: Option<Shade>) {
        None
    }

    fn value_highlight(&self, value: &Double) -> (r: bool) {
        false
    }
}

/// How far the fixed time step has run ahead: as a share of the step in
/// percent, or as a duration in milliseconds.
#[derive(Debug)]
pub struct PerfUiEntryFixedOverstep {
    /// The label of the row. If it is empty, the default label is used.
    pub label: String,
    /// Whether the unit (`ms`) is shown after a duration. The percent sign is
    /// always shown.
    pub display_units: bool,
    /// Whether the overstep is shown as a share of the step, not as a
    /// duration.
    pub as_percent: bool,
    /// The number of digits of the whole part.
    pub digits: u8,
    /// The number of digits after the decimal point.
    pub precision: u8,
    /// The key by which the rows are ordered.
    pub sort_key: i32,
}

impl PerfUiEntryFixedOverstep {
    /// Whether the entry has its default settings, and the given sort key.
    pub open spec fn is_default(&self, sort_key: i32) -> bool {
        &&& self.label@.len() == 0
        &&& self.display_units
        &&& self.as_percent
        &&& self.digits == 3
        &&& self.precision == 2
        &&& self.sort_key == sort_key
    }

    /// The entry with its default settings: the share in percent, with three
    /// digits and two decimal places.
    pub fn new(sort_key: i32) -> (e: Self)
        ensures
            e.is_default(sort_key),
    {
        PerfUiEntryFixedOverstep {
            label: String::new(),
            display_units: true,
            as_percent: true,
            digits: 3,
            precision: 2,
            sort_key,
        }
    }
}

impl PerfUiEntry for PerfUiEntryFixedOverstep {
    type Value = Double;

    open spec fn label_text(&self) -> Seq<char> {
        label_or(self.label@, "Fixed Overstep"@)
    }

    open spec fn key(&self) -> i32 {
        self.sort_key
    }

    open spec fn text_of(&self, value: &Double) -> Seq<char> {
        if self.as_percent {
            text_with_unit(float_text(self.digits, self.precision, *value), true, "%"@)
        } else {
            text_with_unit(float_text(self.digits, self.precision, *value), self.display_units, " ms"@)
        }
    }

    open spec fn color_of(&self, value: &Double) -> Option<Shade> {
        None
    }

    open spec fn highlight_of(&self, value: &Double) -> bool {
        false
    }

    fn label(&self) -> (r: &str) {
        choose_label(&self.label, "Fixed Overstep")
    }

    fn sort_key(&self) -> (r: i32) {
        self.sort_key
    }

    fn format_value(&self, value: &Double) -> (r: String) {
        if self.as_percent {
            add_unit(&format_pretty_float(self.digits, self.precision, *value), true, "%")
        } else {
            add_unit(&format_pretty_float(self.digits, self.precision, *value), self.display_units, " ms")
        }
    }

    fn value_color(&self, value: &Double) -> (r: Option<Shade>) {
        None
    }

    fn value_highlight(&self, value: &Double) -> (r: bool) {
        false
    }
}

impl PerfUiEntryDisplayRange for PerfUiEntryFixedOverstep {
    open spec fn max_hint(&self) -> Option<Double> {
        Some(Double { bits: DOUBLE_HUNDRED })
    }

    open spec fn min_hint(&self) -> Option<Double> {
        Some(Double { bits: 0 })
    }

    open spec fn number_of(&self, value: &Double) -> Option<Double> {
        Some(*value)
    }

    fn max_value_hint(&self) -> (r: Option<Double>) {
        Some(Double::from_bits(DOUBLE_HUNDRED))
    }

    fn min_value_hint(&self) -> (r: Option<Double>) {
        Some(Double::zero())
    }

    fn value_number(&self, value: &Double) -> (r: Option<Double>) {
        Some(*value)
    }
}

} // verus!
