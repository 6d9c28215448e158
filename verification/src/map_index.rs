use vstd::prelude::*;

use crate::hex_coord::HexCoord;
use crate::hexagon::HexagonIndexer;
use crate::hexagon::hexagon_area;
use crate::hexagon::hexagon_coords;
use crate::hexagon::hexagon_has_slot;
use crate::hexagon::hexagon_slot;
use crate::hexagon::in_hexagon;
use crate::orientation::HexOrientation;
use crate::rectangle::RectangleIndexer;
use crate::rectangle::in_rectangle;
use crate::rectangle::offset_to_axial;
use crate::rectangle::offset_to_axial_fits;
use crate::rectangle::rect_coords;
use crate::rectangle::rect_lin;
use crate::world::HexWorldShape;

verus! {

/// What every indexer supplies: the cell count of its bounded region, a
/// bijection from in-region coordinates to slots in `[0, capacity)`, and
/// the inverse bijection.
pub trait Indexer: Sized {
    /// The indexer's fields are consistent and its queries are implemented.
    spec fn inv(&self) -> bool;

    /// The cell count of the region.
    spec fn spec_capacity(&self) -> int;

    /// Whether a coordinate lies inside the region.
    spec fn region(&self, coord: HexCoord) -> bool;

    /// The exact domain on which the slot computation yields a slot number.
    spec fn resolvable(&self, coord: HexCoord) -> bool;

    /// The slot number of a coordinate.
    spec fn spec_slot(&self, coord: HexCoord) -> int;

    /// The coordinate of a slot.
    spec fn spec_coords(&self, slot: int) -> HexCoord;

    fn capacity(&self) -> (cap: usize)
        requires
            self.inv(),
        ensures
            cap == self.spec_capacity(),
    ;

    fn index(&self, coord: HexCoord) -> (slot: usize)
        requires
            self.inv(),
            self.resolvable(coord),
        ensures
            slot == self.spec_slot(coord),
            self.region(coord) ==> slot < self.spec_capacity(),
    ;

    fn try_index(&self, coord: HexCoord) -> (result: Option<usize>)
        requires
            self.inv(),
        ensures
            result is Some <==> self.resolvable(coord),
            result matches Some(i) ==> i == self.spec_slot(coord),
            self.region(coord) ==> result is Some && self.spec_slot(coord)
                < self.spec_capacity(),
    ;

    fn coords(&self, index: usize) -> (c: HexCoord)
        requires
            self.inv(),
            index < self.spec_capacity(),
        ensures
            c == self.spec_coords(index as int),
            self.region(c),
            self.spec_slot(c) == index,
    ;
}

impl Indexer for HexagonIndexer {
    open spec fn inv(&self) -> bool {
        self.wf() && self.orientation is Flat
    }

    open spec fn spec_capacity(&self) -> int {
        hexagon_area(self.radius as int)
    }

    open spec fn region(&self, coord: HexCoord) -> bool {
        in_hexagon(coord, self.radius as int)
    }

    open spec fn resolvable(&self, coord: HexCoord) -> bool {
        hexagon_has_slot(coord, self.radius as int)
    }

    open spec fn spec_slot(&self, coord: HexCoord) -> int {
        hexagon_slot(coord, self.radius as int)
    }

    open spec fn spec_coords(&self, slot: int) -> HexCoord {
        hexagon_coords(self.radius as int, slot)
    }

    fn capacity(&self) -> usize {
        HexagonIndexer::capacity(self)
    }

    fn index(&self, coord: HexCoord) -> usize {
        HexagonIndexer::index(self, coord)
    }

    fn try_index(&self, coord: HexCoord) -> Option<usize> {
        HexagonIndexer::try_index(self, coord)
    }

    fn coords(&self, index: usize) -> HexCoord {
        HexagonIndexer::coords(self, index)
    }
}

impl Indexer for RectangleIndexer {
    open spec fn inv(&self) -> bool {
        self.wf()
    }

    open spec fn spec_capacity(&self) -> int {
        self.capacity as int
    }

    open spec fn region(&self, coord: HexCoord) -> bool {
        in_rectangle(coord, self.orientation, self.spec_width(), self.height as int)
    }

    open spec fn resolvable(&self, coord: HexCoord) -> bool {
        0 <= rect_lin(coord, self.orientation, self.height as int) <= self.capacity
    }

    open spec fn spec_slot(&self, coord: HexCoord) -> int {
        rect_lin(coord, self.orientation, self.height as int)
    }

    open spec fn spec_coords(&self, slot: int) -> HexCoord {
        rect_coords(self.orientation, self.height as int, slot)
    }

    fn capacity(&self) -> usize {
        RectangleIndexer::capacity(self)
    }

    fn index(&self, coord: HexCoord) -> usize {
        proof {
            if Indexer::region(self, coord) {
                self.wf_facts();
                crate::rectangle::lemma_rect_coords_of_index(
                    coord,
                    self.orientation,
                    self.spec_width(),
                    self.height as int,
                );
            }
        }
        RectangleIndexer::index(self, coord)
    }

    fn try_index(&self, coord: HexCoord) -> Option<usize> {
        RectangleIndexer::try_index(self, coord)
    }

    fn coords(&self, index: usize) -> HexCoord {
        RectangleIndexer::coords(self, index)
    }
}

/// The indexer a shape selects: the hex-mod numbering for hexagonal
/// regions, the column-major offset numbering for rectangles and squares.
#[derive(Clone, Copy, Debug)]
pub enum MapIndex {
    Hexagon(HexagonIndexer),
    Rectangle(RectangleIndexer),
}

impl MapIndex {
    pub open spec fn wf(self) -> bool {
        match self {
            MapIndex::Hexagon(h) => h.wf(),
            MapIndex::Rectangle(r) => r.wf(),
        }
    }

    /// Whether the slot queries are implemented for this indexer: hexagonal
    /// regions only support the flat-top layout.
    pub open spec fn supported(self) -> bool {
        match self {
            MapIndex::Hexagon(h) => h.orientation is Flat,
            MapIndex::Rectangle(_) => true,
        }
    }

    pub open spec fn spec_capacity(self) -> int {
        match self {
            MapIndex::Hexagon(h) => hexagon_area(h.radius as int),
            MapIndex::Rectangle(r) => r.capacity as int,
        }
    }

    /// Whether a coordinate lies inside the bounded region this indexer
    /// numbers.
    pub open spec fn in_region(self, c: HexCoord) -> bool {
        match self {
            MapIndex::Hexagon(h) => in_hexagon(c, h.radius as int),
            MapIndex::Rectangle(r) => in_rectangle(
                c,
                r.orientation,
                r.spec_width(),
                r.height as int,
            ),
        }
    }

    /// The slot number of a coordinate. Bijective on the region; outside it
    /// the value is whatever the closed formula produces.
    pub open spec fn slot_of(self, c: HexCoord) -> int {
        match self {
            MapIndex::Hexagon(h) => hexagon_slot(c, h.radius as int),
            MapIndex::Rectangle(r) => rect_lin(c, r.orientation, r.height as int),
        }
    }

    /// The exact domain on which the slot computation yields a slot number
    /// rather than refusing the coordinate. The whole region is inside it.
    pub open spec fn has_slot(self, c: HexCoord) -> bool {
        match self {
            MapIndex::Hexagon(h) => hexagon_has_slot(c, h.radius as int),
            MapIndex::Rectangle(r) => 0 <= rect_lin(c, r.orientation, r.height as int)
                <= r.capacity,
        }
    }

    /// The coordinate of a slot: the inverse of `slot_of` on the region.
    pub open spec fn coord_of(self, i: int) -> HexCoord {
        match self {
            MapIndex::Hexagon(h) => hexagon_coords(h.radius as int, i),
            MapIndex::Rectangle(r) => rect_coords(r.orientation, r.height as int, i),
        }
    }

    pub open spec fn spec_orientation(self) -> HexOrientation {
        match self {
            MapIndex::Hexagon(h) => h.orientation,
            MapIndex::Rectangle(r) => r.orientation,
        }
    }

    /// Whether this indexer is the one the given shape selects.
    pub open spec fn matches_shape(self, shape: HexWorldShape) -> bool {
        &&& (shape matches HexWorldShape::Hexagon(radius, o) ==> self matches MapIndex::Hexagon(h)
            && h.radius == radius && h.orientation == o)
        &&& (shape matches HexWorldShape::Rectangle(w, h, o) ==> self matches MapIndex::Rectangle(
            r,
        ) && r.height == h && r.capacity == w * h && r.orientation == o)
        &&& (shape matches HexWorldShape::Square(n, o) ==> self matches MapIndex::Rectangle(r)
            && r.height == n && r.capacity == n * n && r.orientation == o)
    }

    pub fn new(shape: HexWorldShape) -> (indexer: MapIndex)
        requires
            shape.valid(),
        ensures
            indexer.wf(),
            indexer.spec_orientation() == shape.spec_orientation(),
            indexer.matches_shape(shape),
    {
        match shape {
            HexWorldShape::Hexagon(radius, orientation) => MapIndex::Hexagon(
                HexagonIndexer::new(radius, orientation),
            ),
            HexWorldShape::Rectangle(width, height, orientation) => MapIndex::Rectangle(
                RectangleIndexer::new(width, height, orientation),
            ),
            HexWorldShape::Square(width, orientation) => MapIndex::Rectangle(
                RectangleIndexer::new(width, width, orientation),
            ),
        }
    }

    pub fn capacity(self) -> (cap: usize)
        requires
            self.wf(),
        ensures
            cap == self.spec_capacity(),
            cap >= 1,
    {
        match self {
            MapIndex::Hexagon(indexer) => {
                proof {
                    crate::hexagon::lemma_hexagon_area_bounds(indexer.radius as int);
                }
                indexer.capacity()
            },
            MapIndex::Rectangle(indexer) => indexer.capacity(),
        }
    }

    /// The slot of a coordinate, or nothing where the formula for this
    /// region refuses it. Every in-region coordinate gets its slot.
    pub fn try_index(self, coord: HexCoord) -> (result: Option<usize>)
        requires
            self.wf(),
            self.supported(),
        ensures
            result is Some <==> self.has_slot(coord),
            result matches Some(i) ==> i == self.slot_of(coord),
            self.in_region(coord) ==> result == Some(self.slot_of(coord) as usize)
                && self.slot_of(coord) < self.spec_capacity(),
    {
        match self {
            MapIndex::Hexagon(indexer) => indexer.try_index(coord),
            MapIndex::Rectangle(indexer) => indexer.try_index(coord),
        }
    }

    /// The slot of a coordinate; the caller must have established that the
    /// coordinate resolves to one, most simply by region membership.
    pub fn index(self, coord: HexCoord) -> (slot: usize)
        requires
            self.wf(),
            self.supported(),
            self.has_slot(coord),
        ensures
            slot == self.slot_of(coord),
            self.in_region(coord) ==> slot < self.spec_capacity(),
    {
        match self {
            MapIndex::Hexagon(indexer) => indexer.index(coord),
            MapIndex::Rectangle(indexer) => {
                proof {
                    if self.in_region(coord) {
                        indexer.wf_facts();
                        crate::rectangle::lemma_rect_coords_of_index(
                            coord,
                            indexer.orientation,
                            indexer.spec_width(),
                            indexer.height as int,
                        );
                    }
                }
                indexer.index(coord)
            },
        }
    }

    /// The coordinate of a slot of the region.
    pub fn coord(self, index: usize) -> (c: HexCoord)
        requires
            self.wf(),
            self.supported(),
            index < self.spec_capacity(),
        ensures
            c == self.coord_of(index as int),
            self.in_region(c),
            self.slot_of(c) == index,
    {
        match self {
            MapIndex::Hexagon(indexer) => indexer.coords(index),
            MapIndex::Rectangle(indexer) => indexer.coords(index),
        }
    }

    /// Converts a display offset coordinate to the axial coordinate it
    /// addresses. Only the rectangle numbering defines this conversion.
    pub fn offset_coord(self, col: i32, row: i32) -> (c: HexCoord)
        requires
            self is Rectangle,
            offset_to_axial_fits(self.spec_orientation(), col as int, row as int),
        ensures
            c == offset_to_axial(self.spec_orientation(), col as int, row as int),
            c.sum_zero(),
    {
        match self {
            MapIndex::Hexagon(_) => {
                proof {
                    assert(false);
                }
                HexCoord::new(0, 0, 0)
            },
            MapIndex::Rectangle(indexer) => indexer.offset_coord(col, row),
        }
    }
}

} // verus!
