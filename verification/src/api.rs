//! The scripting interface: the kinds of values that requests and replies
//! carry between the application and the Python shell.
use vstd::prelude::*;

use crate::glyphs::contours::Continuity;

verus! {

/// What kind of Python object a request or reply holds, so that it can be
/// read back.
#[derive(Copy, Clone, Debug, PartialEq, Eq, Structural)]
pub enum PyType {
    Bool,
    Bytes,
    Dict,
    List,
    Float,
    UInt,
    Int,
    Str,
    /// Python's `None`.
    NoneType,
    Class,
}

/// A continuity, as the scripting interface hands it out.
#[derive(Clone, Debug, Default, PartialEq, Copy, Eq, Structural)]
pub struct PyContinuity(pub Continuity);

} // verus!
