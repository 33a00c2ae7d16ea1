//! The value-to-presentation pipeline of a performance overlay: how a measured
//! value becomes a text, a color and a highlight, and how a bar is filled.

pub mod color;
pub mod decimal;
pub mod entries;
pub mod entry;
pub mod float_format;
pub mod format;
pub mod gradient;
pub mod ieee;
pub mod ui;
pub mod utils;
pub mod widgets;
