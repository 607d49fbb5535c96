use vstd::prelude::*;

verus! {

/// Marks an object that follows the pointer while the mouse button is held.
#[derive(Clone, Copy, Debug, PartialEq, Eq, Structural)]
pub struct Move;

/// Marks the object that is currently selected.
#[derive(Clone, Copy, Debug, PartialEq, Eq, Structural)]
pub struct Selected;

/// Marks the object that is selected in the outline menu.
#[derive(Clone, Copy, Debug, PartialEq, Eq, Structural)]
pub struct MenuSelected;

} // verus!
