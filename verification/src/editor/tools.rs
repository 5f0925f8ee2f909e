//! Editor tools: how modifier keys select, and the constraints on transformations.
use vstd::prelude::*;

pub mod bspline;
pub mod constraints;

verus! {

/// Dispatches canvas events to the active tools.
pub struct Tool;

/// How a new selection combines with the current one.
#[derive(Debug, Default, Copy, Clone, PartialEq, Eq)]
pub enum SelectionModifier {
    #[default]
    Replace,
    Add,
    Remove,
}

impl SelectionModifier {
    /// The modifier that the held keys ask for: Shift adds to the selection,
    /// Shift with Control removes from it, anything else replaces it.
    pub fn from_modifier_state(shift: bool, control: bool) -> (ret: SelectionModifier)
        ensures
            ret == (if shift {
                if control {
                    SelectionModifier::Remove
                } else {
                    SelectionModifier::Add
                }
            } else {
                SelectionModifier::Replace
            }),
    {
        if shift {
            if control {
                SelectionModifier::Remove
            } else {
                SelectionModifier::Add
            }
        } else {
            SelectionModifier::Replace
        }
    }
}

/// A direction of movement by the arrow keys.
#[derive(Debug, Copy, Clone, PartialEq, Eq)]
pub enum MoveDirection {
    Up,
    Down,
    Left,
    Right,
}

/// Selecting everything, or clearing the selection.
#[derive(Debug, Copy, Clone, PartialEq, Eq)]
pub enum SelectionAction {
    All,
    Nothing,
}

} // verus!
