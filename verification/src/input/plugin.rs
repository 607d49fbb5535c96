use vstd::prelude::*;

verus! {

/// Groups the input systems of the application.
#[derive(Clone, Copy, Debug, PartialEq, Eq, Structural)]
pub struct InputPlugin;

} // verus!
