//! Widgets that show an entry in another shape than plain text.

pub mod bar;
