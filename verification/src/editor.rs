//! The glyph editor's tools, settings and selection.
pub mod selection;
pub mod tools;
