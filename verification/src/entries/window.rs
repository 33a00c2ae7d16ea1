//! Entries for the windows of the application.

use vstd::prelude::*;
use vstd::string::*;
use crate::entry::{choose_label, label_or, PerfUiEntry};
use crate::float_format::{float_text, format_float, format_pretty_float, plain_float_text};
use crate::ieee::Single;
use crate::gradient::Shade;

verus! {

/// The mode of a window: windowed, full screen, and the like.
#[derive(Debug)]
pub struct PerfUiEntryWindowMode {
    /// The label of the row. If it is empty, the default label is used.
    pub label: String,
    /// The window whose value is shown, by its identifier. If there is none,
    /// the primary window is taken.
    pub window: Option<u64>,
    /// The key by which the rows are ordered.
    pub sort_key: i32,
}

impl PerfUiEntryWindowMode {
    /// Whether the entry has its default settings, and the given sort key.
    pub open spec fn is_default(&self, sort_key: i32) -> bool {
        &&& self.label@.len() == 0
        &&& self.window is None
        &&& self.sort_key == sort_key
    }

    /// The entry with its default settings: the primary window.
    pub fn new(sort_key: i32) -> (e: Self)
        ensures
            e.is_default(sort_key),
    {
        PerfUiEntryWindowMode { label: String::new(), window: None, sort_key }
    }
}

impl PerfUiEntry for PerfUiEntryWindowMode {
    /// The name of the mode, as the host writes it.
    type Value = String;

    open spec fn label_text(&self) -> Seq<char> {
        label_or(self.label@, "Window Mode"@)
    }

    open spec fn key(&self) -> i32 {
        self.sort_key
    }

    open spec fn text_of(&self, value: &String) -> Seq<char> {
        value@
    }

    open spec fn color_of(&self, value: &String) -> Option<Shade> {
        None
    }

    open spec fn highlight_of(&self, value: &String) -> bool {
        false
    }

    fn label(&self) -> (r: &str) {
        choose_label(&self.label, "Window Mode")
    }

    fn sort_key(&self) -> (r: i32) {
        self.sort_key
    }

    fn format_value(&self, value: &String) -> (r: String) {
        value.clone()
    }

    fn value_color(&self, value: &String) -> (r: Option<Shade>) {
        None
    }

    fn value_highlight(&self, value: &String) -> (r: bool) {
        false
    }
}

/// How a window presents its frames: with or without waiting for the display.
#[derive(Debug)]
pub struct PerfUiEntryWindowPresentMode {
    /// The label of the row. If it is empty, the default label is used.
    pub label: String,
    /// The window whose value is shown, by its identifier. If there is none,
    /// the primary window is taken.
    pub window: Option<u64>,
    /// The key by which the rows are ordered.
    pub sort_key: i32,
}

impl PerfUiEntryWindowPresentMode {
    /// Whether the entry has its default settings, and the given sort key.
    pub open spec fn is_default(&self, sort_key: i32) -> bool {
        &&& self.label@.len() == 0
        &&& self.window is None
        &&& self.sort_key == sort_key
    }

    /// The entry with its default settings: the primary window.
    pub fn new(sort_key: i32) -> (e: Self)
        ensures
            e.is_default(sort_key),
    {
        PerfUiEntryWindowPresentMode { label: String::new(), window: None, sort_key }
    }
}

impl PerfUiEntry for PerfUiEntryWindowPresentMode {
    /// The name of the mode, as the host writes it.
    type Value = String;

    open spec fn label_text(&self) -> Seq<char> {
        label_or(self.label@, "Present Mode"@)
    }

    open spec fn key(&self) -> i32 {
        self.sort_key
    }

    open spec fn text_of(&self, value: &String) -> Seq<char> {
        value@
    }

    open spec fn color_of(&self, value: &String) -> Option<Shade> {
        None
    }

    open spec fn highlight_of(&self, value: &String) -> bool {
        false
    }

    fn label(&self) -> (r: &str) {
        choose_label(&self.label, "Present Mode")
    }

    fn sort_key(&self) -> (r: i32) {
        self.sort_key
    }

    fn format_value(&self, value: &String) -> (r: String) {
        value.clone()
    }

    fn value_color(&self, value: &String) -> (r: Option<Shade>) {
        None
    }

    fn value_highlight(&self, value: &String) -> (r: bool) {
        false
    }
}

/// The scale factor of a window.
#[derive(Debug)]
pub struct PerfUiEntryWindowScaleFactor {
    /// The label of the row. If it is empty, the default label is used.
    pub label: String,
    /// The window whose value is shown, by its identifier. If there is none,
    /// the primary window is taken.
    pub window: Option<u64>,
    /// The number of digits of the whole part.
    pub digits: u8,
    /// The number of digits after the decimal point.
    pub precision: u8,
    /// The key by which the rows are ordered.
    pub sort_key: i32,
}

impl PerfUiEntryWindowScaleFactor {
    /// Whether the entry has its default settings, and the given sort key.
    pub open spec fn is_default(&self, sort_key: i32) -> bool {
        &&& self.label@.len() == 0
        &&& self.window is None
        &&& self.digits == 2
        &&& self.precision == 2
        &&& self.sort_key == sort_key
    }

    /// The entry with its default settings: the primary window, with two
    /// digits and two decimal places.
    pub fn new(sort_key: i32) -> (e: Self)
        ensures
            e.is_default(sort_key),
    {
        PerfUiEntryWindowScaleFactor { label: String::new(), window: None, digits: 2, precision: 2, sort_key }
    }
}

impl PerfUiEntry for PerfUiEntryWindowScaleFactor {
    type Value = Single;

    open spec fn label_text(&self) -> Seq<char> {
        label_or(self.label@, "Scale Factor"@)
    }

    open spec fn key(&self) -> i32 {
        self.sort_key
    }

    open spec fn text_of(&self, value: &Single) -> Seq<char> {
        float_text(self.digits, self.precision, value.widened())
    }

    open spec fn color_of(&self, value: &Single) -> Option<Shade> {
        None
    }

    open spec fn highlight_of(&self, value: &Single) -> bool {
        false
    }

    fn label(&self) -> (r: &str) {
        choose_label(&self.label, "Scale Factor")
    }

    fn sort_key(&self) -> (r: i32) {
        self.sort_key
    }

    fn format_value(&self, value: &Single) -> (r: String) {
        format_pretty_float(self.digits, self.precision, value.widen())
    }

    fn value_color(&self, value: &Single) -> (r: Option<Shade>) {
        None
    }

    fn value_highlight(&self, value: &Single) -> (r: bool) {
        false
    }
}

/// Two coordinates, in pixels.
#[derive(Clone, Copy, Debug, PartialEq, Eq, Structural)]
pub struct Coordinates {
    pub x: Single,
    pub y: Single,
}

/// One coordinate as it is shown: the name of its axis in front if axes are
/// shown, and the unit behind if units are shown.
pub open spec fn coordinate_text(axis: Seq<char>, number: Seq<char>, display_axis: bool, display_units: bool) -> Seq<
    char,
> {
    (if display_axis {
        axis + ": "@
    } else {
        Seq::<char>::empty()
    }) + number + (if display_units {
        " px"@
    } else {
        Seq::<char>::empty()
    })
}

/// Two coordinates as they are shown: the one for X, the separator, and the
/// one for Y.
pub open spec fn coordinates_text(
    value: &Coordinates,
    precision: u8,
    separator: Seq<char>,
    display_axis: bool,
    display_units: bool,
) -> Seq<char> {
    coordinate_text("X"@, plain_float_text(precision, value.x.widened()), display_axis, display_units)
        + separator + coordinate_text(
        "Y"@,
        plain_float_text(precision, value.y.widened()),
        display_axis,
        display_units,
    )
}

/// Appends one coordinate: see [`coordinate_text`].
fn push_coordinate(out: &mut String, axis: &str, number: &String, display_axis: bool, display_units: bool)
    ensures
        final(out)@ == old(out)@ + coordinate_text(axis@, number@, display_axis, display_units),
{
    if display_axis {
        out.append(axis);
        out.append(": ");
    }
    out.append(number.as_str());
    if display_units {
        out.append(" px");
    }
    proof {
        assert(out@ =~= old(out)@ + coordinate_text(axis@, number@, display_axis, display_units));
    }
}

/// Two coordinates as they are shown: see [`coordinates_text`].
pub fn format_coordinates(
    value: &Coordinates,
    precision: u8,
    separator: &str,
    display_axis: bool,
    display_units: bool,
) -> (r: String)
    ensures
        r@ == coordinates_text(value, precision, separator@, display_axis, display_units),
{
    let x: String = format_float(precision, value.x.widen());
    let y: String = format_float(precision, value.y.widen());
    let mut out: String = String::new();
    push_coordinate(&mut out, "X", &x, display_axis, display_units);
    out.append(separator);
    push_coordinate(&mut out, "Y", &y, display_axis, display_units);
    proof {
        assert(out@ =~= coordinates_text(value, precision, separator@, display_axis, display_units));
    }
    out
}

/// The size of a window.
#[derive(Debug)]
pub struct PerfUiEntryWindowResolution {
    /// The label of the row. If it is empty, the default label is used.
    pub label: String,
    /// What stands between the two numbers.
    pub separator: &'static str,
    /// Whether the unit (`px`) is shown after each number.
    pub display_units: bool,
    /// Whether the axis (`X`, `Y`) is shown in front of each number.
    pub display_axis: bool,
    /// Whether physical pixels are counted, not logical ones.
    pub physical_pixels: bool,
    /// The window whose value is shown, by its identifier. If there is none,
    /// the primary window is taken.
    pub window: Option<u64>,
    /// The number of digits after the decimal point.
    pub precision: u8,
    /// The number of digits for which there is always room.
    pub width: u8,
    /// The key by which the rows are ordered.
    pub sort_key: i32,
}

impl PerfUiEntryWindowResolution {
    /// Whether the entry has its default settings, and the given sort key.
    pub open spec fn is_default(&self, sort_key: i32) -> bool {
        &&& self.label@.len() == 0
        &&& self.separator@ == "x"@
        &&& !self.display_units
        &&& !self.display_axis
        &&& !self.physical_pixels
        &&& self.window is None
        &&& self.precision == 0
        &&& self.width == 8
        &&& self.sort_key == sort_key
    }

    /// The entry with its default settings: the primary window in logical
    /// pixels, the two numbers bare with an `x` between them.
    pub fn new(sort_key: i32) -> (e: Self)
        ensures
            e.is_default(sort_key),
    {
        PerfUiEntryWindowResolution {
            label: String::new(),
            separator: "x",
            display_units: false,
            display_axis: false,
            physical_pixels: false,
            window: None,
            precision: 0,
            width: 8,
            sort_key,
        }
    }
}

impl PerfUiEntry for PerfUiEntryWindowResolution {
    type Value = Coordinates;

    open spec fn label_text(&self) -> Seq<char> {
        label_or(self.label@, "Resolution"@)
    }

    open spec fn key(&self) -> i32 {
        self.sort_key
    }

    open spec fn text_of(&self, value: &Coordinates) -> Seq<char> {
        coordinates_text(value, self.precision, self.separator@, self.display_axis, self.display_units)
    }

    open spec fn color_of(&self, value: &Coordinates) -> Option<Shade> {
        None
    }

    open spec fn highlight_of(&self, value: &Coordinates) -> bool {
        false
    }

    fn label(&self) -> (r: &str) {
        choose_label(&self.label, "Resolution")
    }

    fn sort_key(&self) -> (r: i32) {
        self.sort_key
    }

    fn format_value(&self, value: &Coordinates) -> (r: String) {
        format_coordinates(value, self.precision, self.separator, self.display_axis, self.display_units)
    }

    fn value_color(&self, value: &Coordinates) -> (r: Option<Shade>) {
        None
    }

    fn value_highlight(&self, value: &Coordinates) -> (r: bool) {
        false
    }
}

/// The place of the mouse cursor in a window.
#[derive(Debug)]
pub struct PerfUiEntryCursorPosition {
    /// The label of the row. If it is empty, the default label is used.
    pub label: String,
    /// What stands between the two numbers.
    pub separator: &'static str,
    /// Whether the unit (`px`) is shown after each number.
    pub display_units: bool,
    /// Whether the axis (`X`, `Y`) is shown in front of each number.
    pub display_axis: bool,
    /// Whether physical pixels are counted, not logical ones.
    pub physical_pixels: bool,
    /// The window whose value is shown, by its identifier. If there is none,
    /// the primary window is taken.
    pub window: Option<u64>,
    /// The number of digits after the decimal point.
    pub precision: u8,
    /// The number of digits for which there is always room.
    pub width: u8,
    /// The key by which the rows are ordered.
    pub sort_key: i32,
}

impl PerfUiEntryCursorPosition {
    /// Whether the entry has its default settings, and the given sort key.
    pub open spec fn is_default(&self, sort_key: i32) -> bool {
        &&& self.label@.len() == 0
        &&& self.separator@ == ", "@
        &&& !self.display_units
        &&& self.display_axis
        &&& !self.physical_pixels
        &&& self.window is None
        &&& self.precision == 0
        &&& self.width == 8
        &&& self.sort_key == sort_key
    }

    /// The entry with its default settings: the primary window in logical
    /// pixels, each number with its axis, a comma and a space between them.
    pub fn new(sort_key: i32) -> (e: Self)
        ensures
            e.is_default(sort_key),
    {
        PerfUiEntryCursorPosition {
            label: String::new(),
            separator: ", ",
            display_units: false,
            display_axis: true,
            physical_pixels: false,
            window: None,
            precision: 0,
            width: 8,
            sort_key,
        }
    }
}

impl PerfUiEntry for PerfUiEntryCursorPosition {
    type Value = Coordinates;

    open spec fn label_text(&self) -> Seq<char> {
        label_or(self.label@, "Cursor Position"@)
    }

    open spec fn key(&self) -> i32 {
        self.sort_key
    }

    open spec fn text_of(&self, value: &Coordinates) -> Seq<char> {
        coordinates_text(value, self.precision, self.separator@, self.display_axis, self.display_units)
    }

    open spec fn color_of(&self, value: &Coordinates) -> Option<Shade> {
        None
    }

    open spec fn highlight_of(&self, value: &Coordinates) -> bool {
        false
    }

    fn label(&self) -> (r: &str) {
        choose_label(&self.label, "Cursor Position")
    }

    fn sort_key(&self) -> (r: i32) {
        self.sort_key
    }

    fn format_value(&self, value: &Coordinates) -> (r: String) {
        format_coordinates(value, self.precision, self.separator, self.display_axis, self.display_units)
    }

    fn value_color(&self, value: &Coordinates) -> (r: Option<Shade>) {
        None
    }

    fn value_highlight(&self, value: &Coordinates) -> (r: bool) {
        false
    }
}

} // verus!
