use vstd::prelude::*;

verus! {

/// The two ways a hexagon can sit on the screen grid: flat edge up, or
/// corner up. Indexing formulas that depend on the layout branch on this.
#[derive(Clone, Copy, Debug, PartialEq, Eq, Structural)]
pub enum HexOrientation {
    Flat,
    Pointy,
}

} // verus!
