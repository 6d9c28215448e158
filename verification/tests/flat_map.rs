use hexmap::CellBucket;
use hexmap::Edge;
use hexmap::FlatMap;
use hexmap::HexCoord;
use hexmap::HexOrientation;
use hexmap::HexWorldShape;

#[test]
fn get_segment_start_is_index_capacity() {
    let map: FlatMap<bool> =
        FlatMap::init_with(HexWorldShape::Hexagon(5, HexOrientation::Flat), || true);

    let s = map.get_segment(HexCoord::from_axial(-1, 1));

    assert_eq!(*s[0].unwrap().0, HexCoord::from_axial(-1, 1));
    assert_eq!(*s[1].unwrap().0, HexCoord::from_axial(0, 0));
    assert_eq!(*s[2].unwrap().0, HexCoord::from_axial(1, -1));
}

#[test]
fn get_segment_start_is_one_less_than_index_capacity() {
    let map: FlatMap<bool> =
        FlatMap::init_with(HexWorldShape::Hexagon(5, HexOrientation::Flat), || true);

    let s = map.get_segment(HexCoord::from_axial(-2, 2));

    assert_eq!(*s[0].unwrap().0, HexCoord::from_axial(-2, 2));
    assert_eq!(*s[1].unwrap().0, HexCoord::from_axial(-1, 1));
    assert_eq!(*s[2].unwrap().0, HexCoord::from_axial(0, 0));
}

#[test]
fn get_segment_start_coord_0_0() {
    let map: FlatMap<bool> =
        FlatMap::init_with(HexWorldShape::Hexagon(5, HexOrientation::Flat), || true);

    let s = map.get_segment(HexCoord::from_axial(0, 0));

    assert_eq!(*s[0].unwrap().0, HexCoord::from_axial(0, 0));
    assert_eq!(*s[1].unwrap().0, HexCoord::from_axial(1, -1));
    assert_eq!(*s[2].unwrap().0, HexCoord::from_axial(2, -2));
}

#[test]
fn neighbours_returns_correct_coords() {
    let map: FlatMap<bool> = FlatMap::new(HexWorldShape::Hexagon(2, HexOrientation::Flat));
    let center = HexCoord::from_axial(0, 0);

    let neighbourhood = map.neighbourhood(center);

    assert_eq!(neighbourhood.node(0).coords, center.neighbour(Edge::QS));
    assert_eq!(neighbourhood.node(1).coords, center.neighbour(Edge::Q));
    assert_eq!(neighbourhood.node(2).coords, center.neighbour(Edge::S));
    assert_eq!(neighbourhood.node(3).coords, center);
    assert_eq!(neighbourhood.center().coords, center);
    assert_eq!(neighbourhood.node(4).coords, center.neighbour(Edge::QR));
    assert_eq!(neighbourhood.node(5).coords, center.neighbour(Edge::RS));
    assert_eq!(neighbourhood.node(6).coords, center.neighbour(Edge::R));

    assert_eq!(neighbourhood.center().value, None);
}

#[test]
fn neighbours_on_map_edge_returns_correct_coords() {
    let map: FlatMap<bool> = FlatMap::new(HexWorldShape::Hexagon(2, HexOrientation::Flat));
    let center = HexCoord::from_axial(1, -1);

    let neighbourhood = map.neighbourhood(center);

    assert_eq!(neighbourhood.node(0).coords, center.neighbour(Edge::QS));
    assert_eq!(neighbourhood.node(1).coords, center.neighbour(Edge::Q));
    assert_eq!(neighbourhood.node(2).coords, center.neighbour(Edge::S));
    assert_eq!(neighbourhood.node(3).coords, center);
    assert_eq!(neighbourhood.center().coords, center);
    assert_eq!(neighbourhood.node(4).coords, center.neighbour(Edge::QR));
    assert_eq!(neighbourhood.node(5).coords, center.neighbour(Edge::RS));
    assert_eq!(neighbourhood.node(6).coords, center.neighbour(Edge::R));

    assert_eq!(neighbourhood.center().value, None);
}

#[test]
fn neighbourhood_with_values() {
    let mut map: FlatMap<bool> = FlatMap::new(HexWorldShape::Hexagon(2, HexOrientation::Flat));
    let center = HexCoord::from_axial(-1, 0);

    map.set(center.neighbour(Edge::RS), Some(true));

    let neighbourhood = map.neighbourhood(center);

    assert_eq!(neighbourhood.center().value, None);
    assert_eq!(neighbourhood.node(5).value, Some(true));
}

#[test]
fn neighbourhood_single_set_cell_radius_2() {
    let mut map: FlatMap<bool> = FlatMap::new(HexWorldShape::Hexagon(2, HexOrientation::Flat));
    let center = HexCoord::new(0, 0, 0);

    map.set(center.neighbour(Edge::RS), Some(true));

    let neighbourhood = map.neighbourhood(center);

    assert_eq!(neighbourhood.center().value, None);
    for k in 0..7 {
        if k == 5 {
            assert_eq!(neighbourhood.node(k).value, Some(true));
        } else {
            assert_eq!(neighbourhood.node(k).value, None);
        }
    }
}

#[test]
fn neighbourhood_wraparound_matches_independent_lookups() {
    let mut map: FlatMap<i32> = FlatMap::new(HexWorldShape::Hexagon(5, HexOrientation::Flat));
    let capacity = map.index().capacity();
    for i in 0..capacity {
        map.set_index(i, Some(i as i32));
    }

    // The highest-numbered slot: its middle run crosses the end of the
    // backing array.
    let center = map.index().coord(capacity - 1);
    let neighbourhood = map.neighbourhood(center);

    assert_eq!(neighbourhood.center().coords, center);
    let expected = [
        center.neighbour(Edge::QS),
        center.neighbour(Edge::Q),
        center.neighbour(Edge::S),
        center,
        center.neighbour(Edge::QR),
        center.neighbour(Edge::RS),
        center.neighbour(Edge::R),
    ];
    let slots = map.iter();
    for k in 0..7 {
        let node = neighbourhood.node(k);
        assert_eq!(node.coords, expected[k]);
        let slot = map.index().index(node.coords);
        let reference = match slots[slot] {
            CellBucket::Occupied(_, v) => Some(v),
            CellBucket::Empty => None,
        };
        assert_eq!(node.value, reference);
    }
}

#[test]
fn set_returns_previous_value() {
    let mut map: FlatMap<u8> = FlatMap::new(HexWorldShape::Hexagon(3, HexOrientation::Flat));
    let c = HexCoord::from_axial(1, -1);
    assert_eq!(map.set(c, Some(4)), None);
    assert_eq!(map.set(c, Some(9)), Some(4));
    assert_eq!(map.get(c), Some(9));
    assert_eq!(map.set(c, None), Some(9));
    assert_eq!(map.get(c), None);
}

#[test]
fn set_index_records_derived_coordinate() {
    let mut map: FlatMap<u8> = FlatMap::new(HexWorldShape::Hexagon(2, HexOrientation::Flat));
    map.set_index(2, Some(7));
    let slots = map.iter();
    match slots[2] {
        CellBucket::Occupied(c, v) => {
            assert_eq!(c, HexCoord::from_axial(0, 1));
            assert_eq!(v, 7);
        }
        CellBucket::Empty => panic!("slot 2 should be occupied"),
    }
    assert_eq!(map.get(HexCoord::from_axial(0, 1)), Some(7));
}

#[test]
fn init_with_fills_every_slot() {
    let map: FlatMap<u8> =
        FlatMap::init_with(HexWorldShape::Square(3, HexOrientation::Pointy), || 3);
    assert_eq!(map.iter().len(), 9);
    for slot in map.iter() {
        match slot {
            CellBucket::Occupied(_, v) => assert_eq!(*v, 3),
            CellBucket::Empty => panic!("every slot should be filled"),
        }
    }
}

#[test]
fn new_map_is_empty() {
    let map: FlatMap<bool> = FlatMap::new(HexWorldShape::Rectangle(4, 2, HexOrientation::Flat));
    assert_eq!(map.iter().len(), 8);
    assert!(map.iter().iter().all(|slot| matches!(slot, CellBucket::Empty)));
}

#[test]
fn footprint_counts_store_and_indexer() {
    let map: FlatMap<bool> = FlatMap::new(HexWorldShape::Hexagon(2, HexOrientation::Flat));
    let expected = std::mem::size_of::<CellBucket<bool>>() * 7
        + std::mem::size_of::<hexmap::MapIndex>();
    assert_eq!(map.footprint(), expected);
}
