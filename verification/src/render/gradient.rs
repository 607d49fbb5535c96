use vstd::prelude::*;

verus! {

/// The color map with which pressure values are drawn.
#[derive(Clone, Copy, Debug, PartialEq, Eq, Structural)]
pub enum Gradient {
    Turbo,
    Viridis,
    Magma,
    Plasma,
    Inferno,
    Bw,
}

impl Default for Gradient {
    fn default() -> (g: Self)
        ensures
            g == Gradient::Turbo,
    {
        Gradient::Turbo
    }
}

} // verus!
