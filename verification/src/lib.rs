//! gerb: the verified core of a font editor for the UFO format.
//!
//! The modules hold the editor's decision logic (undo history, transformation
//! constraints, selections), the UFO file-level rules (layer contents, glyph
//! outlines) and the small text utilities they share.
use vstd::prelude::*;

pub mod api;
pub mod error;
pub mod git;
pub mod undo;
pub mod editor;
pub mod glyph_edit;
pub mod glyphs;
pub mod indexed;
pub mod project;
pub mod resources;
pub mod settings;
pub mod shell;
pub mod text;
pub mod ufo;

verus! {

/// Name of the application.
pub const APPLICATION_NAME: &'static str = "gerb";

/// Reverse-domain identifier of the application.
pub const APPLICATION_ID: &'static str = "io.github.epilys.gerb";

/// Where bugs are reported.
pub const ISSUE_TRACKER: &'static str = "https://github.com/epilys/gerb/issues";

/// Version information string.
pub const VERSION_INFO: &'static str = "<unknown>";

/// Build information string.
pub const BUILD_INFO: &'static str = "<unknown>";

/// Command line information string.
pub const CLI_INFO: &'static str = "<unknown>";

} // verus!
