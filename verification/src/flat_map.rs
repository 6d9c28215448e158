use vstd::prelude::*;

use crate::edge::Edge;
use crate::hex_coord::HexCoord;
use crate::map_index::MapIndex;
use crate::neighbourhood::Neighbourhood;
use crate::neighbourhood::NeighbourhoodNode;
use crate::world::HexWorldShape;

verus! {

use vstd::arithmetic::div_mod::lemma_mod_division_less_than_divisor;
use vstd::arithmetic::div_mod::lemma_mod_self_0;
use vstd::arithmetic::div_mod::lemma_small_mod;

/// One slot of the backing array: either nothing, or the coordinate that
/// resolves to the slot together with the value stored for it.
#[derive(Clone, Copy)]
pub enum CellBucket<T> {
    Occupied(HexCoord, T),
    Empty,
}

impl<T> CellBucket<T> {
    /// The stored value, if any.
    pub open spec fn spec_value(self) -> Option<T> {
        match self {
            CellBucket::Occupied(_, v) => Some(v),
            CellBucket::Empty => None,
        }
    }

    /// The coordinate and value of an occupied slot.
    pub fn unwrap(&self) -> (cv: (&HexCoord, &T))
        requires
            self is Occupied,
        ensures
            *self matches CellBucket::Occupied(c, v) && *cv.0 == c && *cv.1 == v,
    {
        match self {
            CellBucket::Occupied(c, v) => (c, v),
            CellBucket::Empty => vstd::pervasive::unreached(),
        }
    }
}

impl<T> Default for CellBucket<T> {
    fn default() -> (b: CellBucket<T>)
        ensures
            b is Empty,
    {
        CellBucket::Empty
    }
}

/// Dense storage for one bounded grid: a backing array of exactly as many
/// slots as the region has cells, addressed through the indexer's bijection.
pub struct FlatMap<T> {
    pub index: MapIndex,
    pub store: Vec<CellBucket<T>>,
}

impl<T: Copy> FlatMap<T> {
    /// The backing array has exactly the region's capacity, for the whole
    /// life of the map.
    pub open spec fn wf(self) -> bool {
        &&& self.index.wf()
        &&& self.index.supported()
        &&& self.store.len() == self.index.spec_capacity()
    }

    /// The value stored at a slot.
    pub open spec fn value_at(self, slot: int) -> Option<T> {
        self.store[slot].spec_value()
    }

    /// The value stored for a coordinate.
    pub open spec fn value_of(self, coords: HexCoord) -> Option<T> {
        self.value_at(self.index.slot_of(coords))
    }

    pub fn new(shape: HexWorldShape) -> (map: FlatMap<T>)
        requires
            shape.valid(),
            shape matches HexWorldShape::Hexagon(_, o) ==> o is Flat,
        ensures
            map.wf(),
            map.index.matches_shape(shape),
            forall|j: int| 0 <= j < map.store.len() ==> map.store[j] is Empty,
    {
        let index = MapIndex::new(shape);
        let capacity: usize = index.capacity();
        let mut store: Vec<CellBucket<T>> = Vec::new();
        let mut i: usize = 0;
        while i < capacity
            invariant
                i <= capacity,
                store.len() == i,
                forall|j: int| 0 <= j < i ==> store[j] is Empty,
            decreases capacity - i,
        {
            store.push(CellBucket::Empty);
            i = i + 1;
        }
        FlatMap { index, store }
    }

    /// Stores a value (or clears the slot) for a coordinate of the region
    /// and hands back what the slot held before.
    pub fn set(&mut self, coords: HexCoord, value: Option<T>) -> (previous: Option<T>)
        requires
            old(self).wf(),
            old(self).index.in_region(coords),
        ensures
            final(self).wf(),
            final(self).index == old(self).index,
            final(self).store@ == old(self).store@.update(
                old(self).index.slot_of(coords),
                match value {
                    Some(v) => CellBucket::Occupied(coords, v),
                    None => CellBucket::Empty,
                },
            ),
            previous == old(self).value_of(coords),
    {
        proof {
            lemma_in_region_has_slot(self.index, coords);
        }
        let index = self.index.index(coords);
        self.set_internal(index, coords, value)
    }

    /// Stores a value (or clears the slot) at a slot number directly; the
    /// coordinate recorded in the slot is derived through the inverse
    /// bijection.
    pub fn set_index(&mut self, index: usize, value: Option<T>) -> (previous: Option<T>)
        requires
            old(self).wf(),
            index < old(self).index.spec_capacity(),
        ensures
            final(self).wf(),
            final(self).index == old(self).index,
            final(self).store@ == old(self).store@.update(
                index as int,
                match value {
                    Some(v) => CellBucket::Occupied(old(self).index.coord_of(index as int), v),
                    None => CellBucket::Empty,
                },
            ),
            previous == old(self).value_at(index as int),
    {
        let coords = self.index.coord(index);
        self.set_internal(index, coords, value)
    }

    fn set_internal(&mut self, index: usize, coords: HexCoord, value: Option<T>) -> (previous:
        Option<T>)
        requires
            old(self).wf(),
            index < old(self).store.len(),
        ensures
            final(self).wf(),
            final(self).index == old(self).index,
            final(self).store@ == old(self).store@.update(
                index as int,
                match value {
                    Some(v) => CellBucket::Occupied(coords, v),
                    None => CellBucket::Empty,
                },
            ),
            previous == old(self).value_at(index as int),
    {
        let prev: CellBucket<T> = self.store[index];
        let bucket: CellBucket<T> = match value {
            Some(v) => CellBucket::Occupied(coords, v),
            None => CellBucket::Empty,
        };
        self.store.set(index, bucket);
        match prev {
            CellBucket::Occupied(_, v) => Some(v),
            CellBucket::Empty => None,
        }
    }

    /// The value stored for a coordinate of the region, if any.
    pub fn get(&self, coords: HexCoord) -> (value: Option<T>)
        requires
            self.wf(),
            self.index.in_region(coords),
        ensures
            value == self.value_of(coords),
    {
        proof {
            lemma_in_region_has_slot(self.index, coords);
        }
        let index = self.index.index(coords);
        match self.store[index] {
            CellBucket::Occupied(_, v) => Some(v),
            CellBucket::Empty => None,
        }
    }

    /// The memory the map takes: the backing array plus the indexer.
    pub fn footprint(&self) -> (bytes: usize)
        requires
            vstd::layout::size_of::<CellBucket<T>>() * self.store.len() + vstd::layout::size_of::<
                MapIndex,
            >() <= usize::MAX,
        ensures
            bytes == vstd::layout::size_of::<CellBucket<T>>() * self.store.len()
                + vstd::layout::size_of::<MapIndex>(),
    {
        core::mem::size_of::<CellBucket<T>>() * self.store.len() + core::mem::size_of::<MapIndex>()
    }

    /// Builds the map for a shape and stores one freshly produced default
    /// value in every slot.
    pub fn init_with<F: FnOnce() -> T>(shape: HexWorldShape, f: F) -> (map: FlatMap<T>)
        requires
            shape.valid(),
            shape matches HexWorldShape::Hexagon(_, o) ==> o is Flat,
            call_requires(f, ()),
        ensures
            map.wf(),
            map.index.matches_shape(shape),
            exists|v: T|
                #[trigger] call_ensures(f, (), v) && (forall|j: int|
                    0 <= j < map.store.len() ==> map.store[j] == CellBucket::Occupied(
                        map.index.coord_of(j),
                        v,
                    )),
    {
        let mut map = FlatMap::new(shape);
        let v = f();
        let capacity: usize = map.index.capacity();
        let mut i: usize = 0;
        while i < capacity
            invariant
                map.wf(),
                map.index.matches_shape(shape),
                capacity == map.index.spec_capacity(),
                i <= capacity,
                forall|j: int|
                    0 <= j < i ==> map.store[j] == CellBucket::Occupied(
                        map.index.coord_of(j),
                        v,
                    ),
            decreases capacity - i,
        {
            map.set_index(i, Some(v));
            i = i + 1;
        }
        map
    }

    /// Whether the neighbourhood query is defined for this centre: the map
    /// holds a flat-top hexagonal region of at least two rings, the centre
    /// stays clear of the integer bounds, and the three anchor cells of the
    /// query and their run ends all resolve to slots.
    pub open spec fn neighbourhood_ready(self, c: HexCoord) -> bool {
        &&& self.index matches MapIndex::Hexagon(h) && h.radius >= 2
        &&& i32::MIN + 1 <= c.q && c.q + 2 <= i32::MAX
        &&& i32::MIN + 2 <= c.r && c.r + 1 <= i32::MAX
        &&& i32::MIN + 1 <= c.s && c.s + 1 <= i32::MAX
        &&& self.index.has_slot(c.spec_neighbour(Edge::QS))
        &&& self.index.has_slot(
            c.spec_neighbour(Edge::QS).spec_neighbour(Edge::QR).spec_neighbour(Edge::QR),
        )
        &&& self.index.has_slot(c.spec_neighbour(Edge::S))
        &&& self.index.has_slot(
            c.spec_neighbour(Edge::S).spec_neighbour(Edge::QR).spec_neighbour(Edge::QR),
        )
        &&& self.index.has_slot(c.spec_neighbour(Edge::RS))
        &&& self.index.has_slot(
            c.spec_neighbour(Edge::RS).spec_neighbour(Edge::QR).spec_neighbour(Edge::QR),
        )
    }

    /// The centre cell and its six neighbours, each node carrying the
    /// geometrically expected coordinate and the value stored for that
    /// coordinate — exactly what seven independent lookups through the
    /// bijection would report, computed from three runs of consecutive
    /// slots instead.
    pub fn neighbourhood(&self, coords: HexCoord) -> (n: Neighbourhood<T>)
        requires
            self.wf(),
            self.neighbourhood_ready(coords),
        ensures
            n.arr@[0].coords == coords.spec_neighbour(Edge::QS),
            n.arr@[1].coords == coords.spec_neighbour(Edge::Q),
            n.arr@[2].coords == coords.spec_neighbour(Edge::S),
            n.arr@[3].coords == coords,
            n.arr@[4].coords == coords.spec_neighbour(Edge::QR),
            n.arr@[5].coords == coords.spec_neighbour(Edge::RS),
            n.arr@[6].coords == coords.spec_neighbour(Edge::R),
            forall|k: int| 0 <= k < 7 ==> #[trigger] n.arr@[k].value == self.value_of(n.arr@[k].coords),
    {
        proof {
            assert(coords.spec_neighbour(Edge::QS).spec_neighbour(Edge::QR)
                == coords.spec_neighbour(Edge::Q));
            assert(coords.spec_neighbour(Edge::S).spec_neighbour(Edge::QR) == coords);
            assert(coords.spec_neighbour(Edge::S).spec_neighbour(Edge::QR).spec_neighbour(Edge::QR)
                == coords.spec_neighbour(Edge::QR));
            assert(coords.spec_neighbour(Edge::RS).spec_neighbour(Edge::QR)
                == coords.spec_neighbour(Edge::R));
        }
        let t = self.get_segment(coords.neighbour(Edge::QS));
        let top = [
            NeighbourhoodNode::from_bucket(coords.neighbour(Edge::QS), t[0]),
            NeighbourhoodNode::from_bucket(coords.neighbour(Edge::Q), t[1]),
        ];
        let m = self.get_segment(coords.neighbour(Edge::S));
        let middle = [
            NeighbourhoodNode::from_bucket(coords.neighbour(Edge::S), m[0]),
            NeighbourhoodNode::from_bucket(coords, m[1]),
            NeighbourhoodNode::from_bucket(coords.neighbour(Edge::QR), m[2]),
        ];
        let b = self.get_segment(coords.neighbour(Edge::RS));
        let bottom = [
            NeighbourhoodNode::from_bucket(coords.neighbour(Edge::RS), b[0]),
            NeighbourhoodNode::from_bucket(coords.neighbour(Edge::R), b[1]),
        ];
        Neighbourhood::new(top, middle, bottom)
    }

    /// The three consecutive slots anchored at a coordinate: the values the
    /// map holds for the anchor, the cell one `QR` step on, and the cell
    /// two `QR` steps on. The run wraps past the end of the backing array
    /// where the anchor's slot is one of the last two.
    pub fn get_segment(&self, coords: HexCoord) -> (segment: [CellBucket<T>; 3])
        requires
            self.wf(),
            self.index matches MapIndex::Hexagon(h) && h.radius >= 2,
            self.index.has_slot(coords),
            self.index.has_slot(coords.spec_neighbour(Edge::QR).spec_neighbour(Edge::QR)),
            coords.q + 2 <= i32::MAX,
            i32::MIN <= coords.r - 2,
        ensures
            segment@ == seq![
                self.store@[self.index.slot_of(coords)],
                self.store@[self.index.slot_of(coords.spec_neighbour(Edge::QR))],
                self.store@[self.index.slot_of(
                    coords.spec_neighbour(Edge::QR).spec_neighbour(Edge::QR),
                )],
            ],
    {
        let ghost radius: int = self.index->Hexagon_0.radius as int;
        let ghost a: int = crate::hexagon::hexagon_area(radius);
        let i = self.index.index(coords);
        let end = coords.neighbour(Edge::QR).neighbour(Edge::QR);
        let j = self.index.index(end);
        proof {
            crate::hexagon::lemma_hexagon_area_bounds(radius);
            lemma_mod_division_less_than_divisor(
                crate::hexagon::hexagon_raw(coords, radius),
                a,
            );
            crate::hexagon::lemma_hexagon_slot_qr_step(coords, radius);
            crate::hexagon::lemma_hexagon_slot_qr_step(coords.spec_neighbour(Edge::QR), radius);
            if i + 2 < a {
                lemma_small_mod((i + 1) as nat, a as nat);
                lemma_small_mod((i + 2) as nat, a as nat);
            } else if i + 2 == a {
                lemma_small_mod((i + 1) as nat, a as nat);
                lemma_mod_self_0(a);
            } else {
                lemma_mod_self_0(a);
                lemma_small_mod(1nat, a as nat);
            }
        }
        let capacity = self.index.capacity();
        let d = capacity - i;
        if d == 1 {
            [self.store[i], self.store[0], self.store[1]]
        } else if d == 2 {
            [self.store[i], self.store[i + 1], self.store[j]]
        } else {
            [self.store[i], self.store[i + 1], self.store[i + 2]]
        }
    }

    /// The indexer the map resolves coordinates through.
    pub fn index(&self) -> (index: MapIndex)
        ensures
            index == self.index,
    {
        self.index
    }

    /// All slots in slot order (not geometric order), for read-only
    /// traversal.
    pub fn iter(&self) -> (slots: &[CellBucket<T>])
        ensures
            slots@ == self.store@,
    {
        self.store.as_slice()
    }
}

/// A centre at grid distance at most R−2 from the origin always satisfies
/// the neighbourhood query's precondition: its anchors lie inside the
/// region, and their runs' ends still resolve to slots.
pub proof fn lemma_interior_center_neighbourhood_ready<T: Copy>(map: FlatMap<T>, c: HexCoord)
    requires
        map.wf(),
        map.index matches MapIndex::Hexagon(h) && h.radius >= 2,
        c.sum_zero(),
        -(map.index->Hexagon_0.radius - 2) <= c.q <= map.index->Hexagon_0.radius - 2,
        -(map.index->Hexagon_0.radius - 2) <= c.r <= map.index->Hexagon_0.radius - 2,
        -(map.index->Hexagon_0.radius - 2) <= c.s <= map.index->Hexagon_0.radius - 2,
    ensures
        map.neighbourhood_ready(c),
{
    let radius = map.index->Hexagon_0.radius as int;
    let a1 = c.spec_neighbour(Edge::QS);
    let a2 = c.spec_neighbour(Edge::S);
    let a3 = c.spec_neighbour(Edge::RS);
    assert(crate::hexagon::in_hexagon(a1, radius));
    assert(crate::hexagon::in_hexagon(a2, radius));
    assert(crate::hexagon::in_hexagon(a3, radius));
    crate::hexagon::lemma_hexagon_in_region_raw_bounds(a1, radius);
    crate::hexagon::lemma_hexagon_slot_qr_step(a1, radius);
    crate::hexagon::lemma_hexagon_slot_qr_step(a1.spec_neighbour(Edge::QR), radius);
    crate::hexagon::lemma_hexagon_in_region_raw_bounds(a2, radius);
    crate::hexagon::lemma_hexagon_slot_qr_step(a2, radius);
    crate::hexagon::lemma_hexagon_slot_qr_step(a2.spec_neighbour(Edge::QR), radius);
    crate::hexagon::lemma_hexagon_in_region_raw_bounds(a3, radius);
    crate::hexagon::lemma_hexagon_slot_qr_step(a3, radius);
    crate::hexagon::lemma_hexagon_slot_qr_step(a3.spec_neighbour(Edge::QR), radius);
}

/// Every coordinate of the region resolves to a slot.
pub proof fn lemma_in_region_has_slot(index: MapIndex, coords: HexCoord)
    requires
        index.wf(),
        index.in_region(coords),
    ensures
        index.has_slot(coords),
        0 <= index.slot_of(coords) < index.spec_capacity(),
{
    match index {
        MapIndex::Hexagon(h) => {
            crate::hexagon::lemma_hexagon_in_region_raw_bounds(coords, h.radius as int);
            vstd::arithmetic::div_mod::lemma_mod_division_less_than_divisor(
                crate::hexagon::hexagon_raw(coords, h.radius as int),
                crate::hexagon::hexagon_area(h.radius as int),
            );
            crate::hexagon::lemma_hexagon_area_bounds(h.radius as int);
        },
        MapIndex::Rectangle(r) => {
            r.wf_facts();
            crate::rectangle::lemma_rect_coords_of_index(
                coords,
                r.orientation,
                r.spec_width(),
                r.height as int,
            );
        },
    }
}

} // verus!
