//! The glyph editing view's tools.
pub mod tools;
