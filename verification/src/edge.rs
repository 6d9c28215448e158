use vstd::prelude::*;

use crate::hex_coord::HexCoord;

verus! {

/// One of the six edges (equivalently, directions) around a hexagonal cell,
/// named after the axes it sits between on a flat-top layout.
#[derive(Clone, Copy, Debug, PartialEq, Eq, Structural)]
pub enum Edge {
    Q,
    QR,
    R,
    RS,
    S,
    QS,
}

impl Edge {
    /// The unit coordinate offset of this edge on a flat-top layout.
    pub open spec fn spec_offset(self) -> HexCoord {
        match self {
            Edge::Q => HexCoord { q: 0i32, r: -1i32, s: 1i32 },
            Edge::QR => HexCoord { q: 1i32, r: -1i32, s: 0i32 },
            Edge::R => HexCoord { q: 1i32, r: 0i32, s: -1i32 },
            Edge::RS => HexCoord { q: 0i32, r: 1i32, s: -1i32 },
            Edge::S => HexCoord { q: -1i32, r: 1i32, s: 0i32 },
            Edge::QS => HexCoord { q: -1i32, r: 0i32, s: 1i32 },
        }
    }

    /// The canonical position of this edge in the clockwise enumeration.
    pub open spec fn spec_index(self) -> int {
        match self {
            Edge::Q => 0,
            Edge::QR => 1,
            Edge::R => 2,
            Edge::RS => 3,
            Edge::S => 4,
            Edge::QS => 5,
        }
    }

    /// The edge sitting at a given position of the clockwise enumeration.
    pub open spec fn spec_from_index(i: int) -> Edge {
        if i == 0 {
            Edge::Q
        } else if i == 1 {
            Edge::QR
        } else if i == 2 {
            Edge::R
        } else if i == 3 {
            Edge::RS
        } else if i == 4 {
            Edge::S
        } else {
            Edge::QS
        }
    }

    pub fn offset_flat(self) -> (c: HexCoord)
        ensures
            c == self.spec_offset(),
            c.sum_zero(),
    {
        match self {
            Edge::Q => HexCoord::new(0, -1, 1),
            Edge::QR => HexCoord::new(1, -1, 0),
            Edge::R => HexCoord::new(1, 0, -1),
            Edge::RS => HexCoord::new(0, 1, -1),
            Edge::S => HexCoord::new(-1, 1, 0),
            Edge::QS => HexCoord::new(-1, 0, 1),
        }
    }

    pub fn index(self) -> (i: usize)
        ensures
            i == self.spec_index(),
    {
        match self {
            Edge::Q => 0,
            Edge::QR => 1,
            Edge::R => 2,
            Edge::RS => 3,
            Edge::S => 4,
            Edge::QS => 5,
        }
    }

    pub fn from_index(i: usize) -> (e: Edge)
        requires
            i < 6,
        ensures
            e == Edge::spec_from_index(i as int),
            e.spec_index() == i,
    {
        match i {
            0 => Edge::Q,
            1 => Edge::QR,
            2 => Edge::R,
            3 => Edge::RS,
            4 => Edge::S,
            _ => Edge::QS,
        }
    }
}

} // verus!
