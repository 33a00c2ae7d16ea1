//! The settings of an overlay: what holds for all of its entries.

use vstd::prelude::*;
use vstd::string::*;
use crate::color::{Color, ColorSpace};
use crate::ieee::Single;

verus! {

/// The corner of the screen at which the overlay stands.
#[derive(Clone, Copy, Debug, PartialEq, Eq, Hash, Structural)]
pub enum PerfUiPosition {
    /// At the given distance from the top and the left edge.
    TopLeft,
    /// At the given distance from the top and the right edge.
    TopRight,
    /// At the given distance from the bottom and the left edge.
    BottomLeft,
    /// At the given distance from the bottom and the right edge.
    BottomRight,
}

impl Default for PerfUiPosition {
    fn default() -> (r: Self)
        ensures
            r == PerfUiPosition::TopRight,
    {
        PerfUiPosition::TopRight
    }
}

impl PerfUiPosition {
    /// Whether the corner lies at the top edge.
    pub open spec fn at_top(self) -> bool {
        self == PerfUiPosition::TopLeft || self == PerfUiPosition::TopRight
    }

    /// Whether the corner lies at the left edge.
    pub open spec fn at_left(self) -> bool {
        self == PerfUiPosition::TopLeft || self == PerfUiPosition::BottomLeft
    }

    /// The distance from the top edge: the margin at a top corner, none (the
    /// layout decides) at a bottom corner.
    pub fn top(self, margin: Single) -> (r: Option<Single>)
        ensures
            r == (if self.at_top() {
                Some(margin)
            } else {
                None
            }),
    {
        match self {
            PerfUiPosition::TopLeft | PerfUiPosition::TopRight => Some(margin),
            PerfUiPosition::BottomLeft | PerfUiPosition::BottomRight => None,
        }
    }

    /// The distance from the bottom edge: the margin at a bottom corner, none
    /// at a top corner.
    pub fn bottom(self, margin: Single) -> (r: Option<Single>)
        ensures
            r == (if self.at_top() {
                None
            } else {
                Some(margin)
            }),
    {
        match self {
            PerfUiPosition::BottomLeft | PerfUiPosition::BottomRight => Some(margin),
            PerfUiPosition::TopLeft | PerfUiPosition::TopRight => None,
        }
    }

    /// The distance from the left edge: the margin at a left corner, none at a
    /// right corner.
    pub fn left(self, margin: Single) -> (r: Option<Single>)
        ensures
            r == (if self.at_left() {
                Some(margin)
            } else {
                None
            }),
    {
        match self {
            PerfUiPosition::TopLeft | PerfUiPosition::BottomLeft => Some(margin),
            PerfUiPosition::TopRight | PerfUiPosition::BottomRight => None,
        }
    }

    /// The distance from the right edge: the margin at a right corner, none at
    /// a left corner.
    pub fn right(self, margin: Single) -> (r: Option<Single>)
        ensures
            r == (if self.at_left() {
                None
            } else {
                Some(margin)
            }),
    {
        match self {
            PerfUiPosition::TopRight | PerfUiPosition::BottomRight => Some(margin),
            PerfUiPosition::TopLeft | PerfUiPosition::BottomLeft => None,
        }
    }
}

/// The settings of an overlay.
#[derive(Debug)]
pub struct PerfUiRoot {
    /// The background of the overlay.
    pub background_color: Color,
    /// The background of each row.
    pub inner_background_color: Color,
    /// The background of a highlighted row.
    pub inner_background_color_highlight: Color,
    /// Whether labels are shown. If not, there is no column for them.
    pub display_labels: bool,
    /// Whether the entries stand side by side instead of in rows.
    pub layout_horizontal: bool,
    /// The text that is shown while a value is not available.
    pub text_err: String,
    /// The color of that text.
    pub err_color: Color,
    /// The color of a value for which its entry gives none.
    pub default_value_color: Color,
    /// The color of the labels.
    pub label_color: Color,
    /// The font size of the labels.
    pub fontsize_label: Single,
    /// The font size of the values.
    pub fontsize_value: Single,
    /// The place of the overlay in the stacking order.
    pub z_index: i32,
    /// The corner at which the overlay stands.
    pub position: PerfUiPosition,
    /// The distance from the edges of the screen, in pixels.
    pub margin: Single,
    /// The empty space around the edge of the overlay.
    pub padding: Single,
    /// The empty space around each row.
    pub inner_margin: Single,
    /// The empty space around the text of each row.
    pub inner_padding: Single,
    /// The width of the column of values, in pixels.
    pub values_col_width: Single,
}

/// The text that is shown by default while a value is not available.
pub open spec fn default_err_text() -> Seq<char> {
    seq!['N', '/', 'A']
}

/// An sRGB color from the bit patterns of its channels.
pub open spec fn srgba_bits(red: u32, green: u32, blue: u32, alpha: u32) -> Color {
    Color::srgba_of(Single { bits: red }, Single { bits: green }, Single { bits: blue }, Single { bits: alpha })
}

/// No color at all: transparent black, in linear sRGB.
pub open spec fn no_color() -> Color {
    Color {
        space: ColorSpace::LinearRgba,
        first: Single { bits: 0 },
        second: Single { bits: 0 },
        third: Single { bits: 0 },
        alpha: Single { bits: 0 },
    }
}

/// No color at all: transparent black, in linear sRGB.
pub fn transparent() -> (c: Color)
    ensures
        c == no_color(),
{
    Color {
        space: ColorSpace::LinearRgba,
        first: Single::zero(),
        second: Single::zero(),
        third: Single::zero(),
        alpha: Single::zero(),
    }
}

impl PerfUiRoot {
    /// Whether the settings are the default ones.
    pub open spec fn is_default(&self) -> bool {
        &&& self.background_color == srgba_bits(0, 0, 0, 0x3f00_0000)
        &&& self.inner_background_color == no_color()
        &&& self.inner_background_color_highlight == srgba_bits(0x3f80_0000, 0, 0, 0x3d80_0000)
        &&& self.display_labels
        &&& !self.layout_horizontal
        &&& self.text_err@ == default_err_text()
        &&& self.err_color == srgba_bits(0x3f00_0000, 0x3f00_0000, 0x3f00_0000, 0x3f80_0000)
        &&& self.default_value_color == srgba_bits(0x3f40_0000, 0x3f40_0000, 0x3f40_0000, 0x3f80_0000)
        &&& self.label_color == srgba_bits(0x3f80_0000, 0x3f80_0000, 0x3f80_0000, 0x3f80_0000)
        &&& self.fontsize_label.bits == 0x4140_0000
        &&& self.fontsize_value.bits == 0x4140_0000
        &&& self.z_index == i32::MAX
        &&& self.position == PerfUiPosition::TopRight
        &&& self.margin.bits == 0x4180_0000
        &&& self.padding.bits == 0x4000_0000
        &&& self.inner_margin.bits == 0
        &&& self.inner_padding.bits == 0
        &&& self.values_col_width.bits == 0x4300_0000
    }
}

impl Default for PerfUiRoot {
    /// The default settings: labels shown, rows below one another at the top
    /// right, `N/A` in gray for a value that is not available, and a faint
    /// red behind a highlighted row.
    fn default() -> (r: Self)
        ensures
            r.is_default(),
    {
        let zero: Single = Single::zero();
        let half: Single = Single::from_bits(0x3f00_0000);
        let three_quarters: Single = Single::from_bits(0x3f40_0000);
        let one: Single = Single::one();
        proof {
            reveal_strlit("N/A");
            assert("N/A"@ =~= default_err_text());
        }
        PerfUiRoot {
            background_color: Color::srgba(zero, zero, zero, half),
            inner_background_color: transparent(),
            inner_background_color_highlight: Color::srgba(one, zero, zero, Single::from_bits(0x3d80_0000)),
            display_labels: true,
            layout_horizontal: false,
            text_err: String::from_str("N/A"),
            err_color: Color::srgb(half, half, half),
            default_value_color: Color::srgb(three_quarters, three_quarters, three_quarters),
            label_color: Color::srgb(one, one, one),
            fontsize_label: Single::from_bits(0x4140_0000),
            fontsize_value: Single::from_bits(0x4140_0000),
            z_index: i32::MAX,
            position: PerfUiPosition::TopRight,
            margin: Single::from_bits(0x4180_0000),
            padding: Single::from_bits(0x4000_0000),
            inner_margin: zero,
            inner_padding: zero,
            values_col_width: Single::from_bits(0x4300_0000),
        }
    }
}

} // verus!
