use vstd::prelude::*;

use crate::hex_coord::HexCoord;
use crate::hexagon::MAX_HEXAGON_RADIUS;
use crate::map_index::MapIndex;
use crate::orientation::HexOrientation;

verus! {

/// The shape of a bounded grid, as the caller selects it: a hexagon by its
/// radius in cells (the centre counting as one), a rectangle by width and
/// height, or a square by its side. Each carries the layout orientation.
#[derive(Clone, Copy, Debug)]
pub enum HexWorldShape {
    Hexagon(usize, HexOrientation),
    Rectangle(usize, usize, HexOrientation),
    Square(usize, HexOrientation),
}

impl HexWorldShape {
    /// Every dimension must be positive, and the cell count must fit the
    /// machine word the indexers store it in.
    pub open spec fn valid(self) -> bool {
        match self {
            HexWorldShape::Hexagon(radius, _) => 1 <= radius <= MAX_HEXAGON_RADIUS,
            HexWorldShape::Rectangle(w, h, _) => 1 <= w && 1 <= h && w * h <= i32::MAX,
            HexWorldShape::Square(n, _) => 1 <= n && n * n <= i32::MAX,
        }
    }

    pub open spec fn spec_orientation(self) -> HexOrientation {
        match self {
            HexWorldShape::Hexagon(_, o) => o,
            HexWorldShape::Rectangle(_, _, o) => o,
            HexWorldShape::Square(_, o) => o,
        }
    }

    pub fn orientation(&self) -> (o: &HexOrientation)
        ensures
            *o == self.spec_orientation(),
    {
        match self {
            HexWorldShape::Hexagon(_, o) => o,
            HexWorldShape::Rectangle(_, _, o) => o,
            HexWorldShape::Square(_, o) => o,
        }
    }
}

/// A configured grid: the chosen shape, the indexer built from it once, and
/// the cell size the presentation layer scales by (opaque to the indexing
/// logic).
#[derive(Clone, Copy)]
pub struct HexWorld<U> where U: Copy {
    pub cell_size: U,
    pub world_shape: HexWorldShape,
    pub indexer: MapIndex,
}

impl<U> HexWorld<U> where U: Copy {
    /// The indexer is the one the shape selects.
    pub open spec fn wf(self) -> bool {
        &&& self.world_shape.valid()
        &&& self.indexer.wf()
        &&& self.indexer.matches_shape(self.world_shape)
    }

    pub fn new(world_shape: HexWorldShape, cell_size: U) -> (world: HexWorld<U>)
        requires
            world_shape.valid(),
        ensures
            world.wf(),
            world.world_shape == world_shape,
            world.cell_size == cell_size,
    {
        HexWorld { cell_size, world_shape, indexer: MapIndex::new(world_shape) }
    }

    /// The middle cell of the grid: the origin for a hexagon, the cell at
    /// the middle slot for a rectangle or square.
    pub fn center(&self) -> (c: HexCoord)
        requires
            self.wf(),
        ensures
            self.world_shape is Hexagon ==> c == (HexCoord { q: 0, r: 0, s: 0 }),
            !(self.world_shape is Hexagon) ==> c == self.indexer.coord_of(
                self.indexer.spec_capacity() / 2,
            ),
    {
        match self.world_shape {
            HexWorldShape::Hexagon(_, _) => HexCoord::new(0, 0, 0),
            HexWorldShape::Rectangle(_, _, _) | HexWorldShape::Square(_, _) => {
                let cap: usize = self.indexer.capacity();
                proof {
                    vstd::arithmetic::div_mod::lemma_div_pos_is_pos(cap as int, 2);
                    vstd::arithmetic::div_mod::lemma_div_is_strictly_smaller(cap as int, 2);
                }
                self.indexer.coord(cap / 2)
            },
        }
    }
}

} // verus!
