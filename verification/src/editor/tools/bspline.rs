//! The b-spline tool, which does not yet act on the canvas.
use vstd::prelude::*;

verus! {

/// The b-spline tool.
#[derive(Debug, Default, Clone, Copy)]
pub struct BSplineToolInner;

impl BSplineToolInner {
    /// The tool's name, as the toolbox shows it.
    pub fn name(&self) -> (ret: &'static str)
        ensures
            ret@ == "Create b-spline curve"@,
    {
        "Create b-spline curve"
    }

    /// Whether the tool takes a pointer event for itself: it takes none,
    /// so that other handlers get them.
    pub fn takes_event(&self) -> (ret: bool)
        ensures
            !ret,
    {
        false
    }
}

} // verus!
