use vstd::prelude::*;

use crate::flat_map::CellBucket;
use crate::hex_coord::HexCoord;

verus! {

/// One cell of a neighbourhood query: the coordinate the query asked about
/// (computed geometrically, so it is right even for an empty cell) together
/// with the value stored there, if any.
#[derive(Clone, Copy)]
pub struct NeighbourhoodNode<T> {
    pub coords: HexCoord,
    pub value: Option<T>,
}

impl<T: Copy> NeighbourhoodNode<T> {
    pub fn new(coords: HexCoord, value: Option<T>) -> (node: NeighbourhoodNode<T>)
        ensures
            node.coords == coords,
            node.value == value,
    {
        NeighbourhoodNode { coords, value }
    }

    pub fn from_bucket(coords: HexCoord, bucket: CellBucket<T>) -> (node: NeighbourhoodNode<T>)
        ensures
            node.coords == coords,
            node.value == bucket.spec_value(),
    {
        NeighbourhoodNode {
            coords,
            value: match bucket {
                CellBucket::Occupied(_, v) => Some(v),
                CellBucket::Empty => None,
            },
        }
    }
}

/// A cell and its six neighbours, in the fixed order the query assembles:
/// the two top-row cells, the left cell, the centre, the right cell, and
/// the two bottom-row cells. Fully owned; copied out of the map.
pub struct Neighbourhood<T> {
    pub arr: [NeighbourhoodNode<T>; 7],
}

impl<T: Copy> Neighbourhood<T> {
    pub(crate) fn new(
        top: [NeighbourhoodNode<T>; 2],
        middle: [NeighbourhoodNode<T>; 3],
        bottom: [NeighbourhoodNode<T>; 2],
    ) -> (n: Neighbourhood<T>)
        ensures
            n.arr@ == seq![
                top@[0],
                top@[1],
                middle@[0],
                middle@[1],
                middle@[2],
                bottom@[0],
                bottom@[1],
            ],
    {
        let n = Neighbourhood {
            arr: [top[0], top[1], middle[0], middle[1], middle[2], bottom[0], bottom[1]],
        };
        proof {
            assert(n.arr@ =~= seq![
                top@[0],
                top@[1],
                middle@[0],
                middle@[1],
                middle@[2],
                bottom@[0],
                bottom@[1],
            ]);
        }
        n
    }

    /// The queried cell itself, always at the middle position.
    pub fn center(&self) -> (node: NeighbourhoodNode<T>)
        ensures
            node == self.arr@[3],
    {
        self.arr[3]
    }

    /// The node at a position of the fixed order.
    pub fn node(&self, index: usize) -> (node: NeighbourhoodNode<T>)
        requires
            index < 7,
        ensures
            node == self.arr@[index as int],
    {
        self.arr[index]
    }

    /// All seven nodes in order, for iteration.
    pub fn iter(&self) -> (nodes: &[NeighbourhoodNode<T>])
        ensures
            nodes@ == self.arr@,
    {
        self.arr.as_slice()
    }
}

} // verus!
