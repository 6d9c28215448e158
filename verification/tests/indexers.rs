use hexmap::HexCoord;
use hexmap::HexOrientation;
use hexmap::Indexer;
use hexmap::HexWorld;
use hexmap::HexWorldShape;
use hexmap::HexagonIndexer;
use hexmap::MapIndex;
use hexmap::RectangleIndexer;

#[test]
fn try_index_does_not_error() {
    let indexer = HexagonIndexer::new(3, HexOrientation::Flat);
    assert_eq!(indexer.try_index(HexCoord::from_axial(100, 100)), None);
}

#[test]
fn rectangle_try_index_does_not_error() {
    let indexer = RectangleIndexer::new(3, 3, HexOrientation::Flat);
    assert_eq!(indexer.try_index(HexCoord::from_axial(100, 100)), None);
}

#[test]
fn hexagon_indexer_capacity() {
    for &(radius, expected) in &[(1usize, 1usize), (2, 7), (3, 19), (4, 37), (5, 61)] {
        let indexer = HexagonIndexer::new(radius, HexOrientation::Flat);
        assert_eq!(indexer.capacity(), expected);
    }
}

#[test]
fn hexagon_indexer_index_at_center_always_0() {
    for &radius in &[1usize, 2, 3, 4, 5, 200] {
        let indexer = HexagonIndexer::new(radius, HexOrientation::Flat);
        assert_eq!(indexer.index(HexCoord::from_axial(0, 0)), 0);
    }
}

#[test]
fn hexagon_indexer_index() {
    let cases: [(i32, i32, usize); 7] = [
        (0, 0, 0),
        (1, -1, 1),
        (0, 1, 2),
        (1, 0, 3),
        (-1, 0, 4),
        (0, -1, 5),
        (-1, 1, 6),
    ];
    let indexer = HexagonIndexer::new(2, HexOrientation::Flat);
    for &(q, r, expected) in cases.iter() {
        assert_eq!(indexer.index(HexCoord::from_axial(q, r)), expected);
    }
}

#[test]
fn hexagon_indexer_coords() {
    let indexer = HexagonIndexer::new(2, HexOrientation::Flat);
    assert_eq!(indexer.coords(0), HexCoord::from_axial(0, 0));
    assert_eq!(indexer.coords(1), HexCoord::from_axial(1, -1));
    assert_eq!(indexer.coords(4), HexCoord::from_axial(-1, 0));
}

#[test]
fn hexagon_round_trip_all_slots() {
    for radius in 1..=5usize {
        let indexer = HexagonIndexer::new(radius, HexOrientation::Flat);
        let origin = HexCoord::from_axial(0, 0);
        for i in 0..indexer.capacity() {
            let c = indexer.coords(i);
            assert_eq!(indexer.index(c), i);
            assert!(c.dist(origin) < radius as i32);
        }
    }
}

#[test]
fn hexagon_round_trip_all_coords() {
    for radius in 1..=5usize {
        let indexer = HexagonIndexer::new(radius, HexOrientation::Flat);
        let origin = HexCoord::from_axial(0, 0);
        let r = radius as i32;
        for q in -r..=r {
            for rr in -r..=r {
                let c = HexCoord::from_axial(q, rr);
                if c.dist(origin) < r {
                    let i = indexer.index(c);
                    assert!(i < indexer.capacity());
                    assert_eq!(indexer.coords(i), c);
                }
            }
        }
    }
}

#[test]
fn rectangle_indexer_capacity() {
    assert_eq!(RectangleIndexer::new(2, 2, HexOrientation::Flat).capacity(), 4);
    assert_eq!(RectangleIndexer::new(3, 3, HexOrientation::Flat).capacity(), 9);
}

#[test]
fn rectangle_indexer_coords() {
    let flat = RectangleIndexer::new(2, 2, HexOrientation::Flat);
    assert_eq!(flat.coords(0), HexCoord::from_axial(0, 0));
    let flat3 = RectangleIndexer::new(3, 3, HexOrientation::Flat);
    assert_eq!(flat3.coords(0), HexCoord::from_axial(0, 0));
}

#[test]
fn flat_orientation_5_by_5() {
    let cases: [(usize, (i32, i32)); 7] = [
        (0, (0, 0)),
        (1, (0, 1)),
        (2, (0, 2)),
        (8, (1, 3)),
        (17, (3, 1)),
        (21, (4, -1)),
        (23, (4, 1)),
    ];
    let indexer = RectangleIndexer::new(5, 5, HexOrientation::Flat);
    for &(index, (q, r)) in cases.iter() {
        let coords = HexCoord::from_axial(q, r);
        assert_eq!(indexer.coords(index), coords);
        assert_eq!(indexer.index(coords), index);
    }
}

#[test]
fn pointy_orientation_3_by_3() {
    let cases: [(usize, (i32, i32)); 5] = [
        (0, (0, 0)),
        (1, (0, 1)),
        (2, (-1, 2)),
        (8, (1, 2)),
        (6, (2, 0)),
    ];
    let indexer = RectangleIndexer::new(3, 3, HexOrientation::Pointy);
    for &(index, (q, r)) in cases.iter() {
        let coords = HexCoord::from_axial(q, r);
        assert_eq!(indexer.coords(index), coords);
        assert_eq!(indexer.index(coords), index);
    }
}

#[test]
fn rectangle_round_trip_all_slots() {
    let configs: [(usize, usize, HexOrientation); 4] = [
        (5, 5, HexOrientation::Flat),
        (5, 5, HexOrientation::Pointy),
        (7, 3, HexOrientation::Flat),
        (2, 9, HexOrientation::Pointy),
    ];
    for &(w, h, o) in configs.iter() {
        let indexer = RectangleIndexer::new(w, h, o);
        for i in 0..indexer.capacity() {
            let c = indexer.coords(i);
            assert_eq!(indexer.index(c), i);
            assert_eq!(indexer.coords(indexer.index(c)), c);
        }
    }
}

#[test]
fn offset_coords_to_coords() {
    let pointy = RectangleIndexer::new(5, 5, HexOrientation::Pointy);
    assert_eq!(pointy.offset_coord(0, 0), HexCoord::from_axial(0, 0));
    assert_eq!(pointy.offset_coord(1, 2), HexCoord::from_axial(0, 2));
    let flat = RectangleIndexer::new(7, 3, HexOrientation::Flat);
    assert_eq!(flat.offset_coord(2, 1), HexCoord::from_axial(2, 0));
}

#[test]
fn map_index_dispatches_by_shape() {
    let hex = MapIndex::new(HexWorldShape::Hexagon(2, HexOrientation::Flat));
    assert_eq!(hex.capacity(), 7);
    assert_eq!(hex.index(HexCoord::from_axial(0, 1)), 2);
    assert_eq!(hex.coord(2), HexCoord::from_axial(0, 1));
    assert_eq!(hex.try_index(HexCoord::from_axial(100, 100)), None);
    let square = MapIndex::new(HexWorldShape::Square(3, HexOrientation::Pointy));
    assert_eq!(square.capacity(), 9);
    assert_eq!(square.coord(6), HexCoord::from_axial(2, 0));
    assert_eq!(square.offset_coord(1, 2), HexCoord::from_axial(0, 2));
}

fn round_trips_everywhere<I: Indexer>(indexer: &I) {
    for i in 0..Indexer::capacity(indexer) {
        let c = Indexer::coords(indexer, i);
        assert_eq!(Indexer::index(indexer, c), i);
        assert_eq!(Indexer::try_index(indexer, c), Some(i));
    }
}

#[test]
fn indexer_trait_round_trips() {
    round_trips_everywhere(&HexagonIndexer::new(4, HexOrientation::Flat));
    round_trips_everywhere(&RectangleIndexer::new(4, 6, HexOrientation::Flat));
    round_trips_everywhere(&RectangleIndexer::new(4, 6, HexOrientation::Pointy));
}

#[test]
fn world_center_tests() {
    let pointy = HexWorld::new(HexWorldShape::Square(5, HexOrientation::Pointy), 1u8);
    assert_eq!(pointy.center(), HexCoord::from_axial(1, 2));
    let flat = HexWorld::new(HexWorldShape::Square(5, HexOrientation::Flat), 1u8);
    assert_eq!(flat.center(), HexCoord::from_axial(2, 1));
    let hex = HexWorld::new(HexWorldShape::Hexagon(4, HexOrientation::Flat), 1u8);
    assert_eq!(hex.center(), HexCoord::new(0, 0, 0));
    assert_eq!(*hex.world_shape.orientation(), HexOrientation::Flat);
}
