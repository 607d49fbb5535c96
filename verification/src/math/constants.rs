use vstd::prelude::*;

verus! {

/// Amount of simulated pixels in the x direction
pub const SIMULATION_WIDTH: u32 = 400;

/// Amount of simulated pixels in the y direction
pub const SIMULATION_HEIGHT: u32 = 400;

/// Width of the boundary in pixels
pub const INIT_BOUNDARY_WIDTH: u32 = 50;

} // verus!
