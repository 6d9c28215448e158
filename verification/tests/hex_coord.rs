use hexmap::Edge;
use hexmap::HexCoord;

#[test]
fn hex_coord_hex_macro() {
    assert_eq!(HexCoord::new(1, -1, 0), HexCoord::new(1, -1, 0));
    assert_eq!(HexCoord::from_qr(1, -1), HexCoord::new(1, -1, 0));
    let r = 5;
    let s = 8;
    let q = -r - s;
    assert_eq!(HexCoord::from_qr(r, s), HexCoord::new(r, s, q));
}

#[test]
fn hex_coord_equality_are_equal() {
    assert_eq!(HexCoord::new(1, 1, -2), HexCoord::new(1, 1, -2));
}

#[test]
fn hex_coord_add() {
    assert_eq!(
        HexCoord::new(1, 1, -2).add(HexCoord::new(1, 0, -1)),
        HexCoord::new(2, 1, -3)
    );
}

#[test]
fn hex_coord_sub() {
    assert_eq!(
        HexCoord::new(1, -1, 0).sub(HexCoord::new(1, 2, -3)),
        HexCoord::new(0, -3, 3)
    );
}

#[test]
fn hex_coord_dist() {
    assert_eq!(HexCoord::new(2, 1, -3).dist(HexCoord::new(1, 2, -3)), 1);
    assert_eq!(HexCoord::new(0, -4, 4).dist(HexCoord::new(0, 4, -4)), 8);
    assert_eq!(HexCoord::new(3, -1, -2).dist(HexCoord::new(1, 0, -1)), 2);
}

#[test]
fn ring() {
    let r = HexCoord::new(1, -1, 0).ring(2);
    assert_eq!(r.len(), 12);
    assert!(r.contains(&HexCoord::from_qr(1, -3)));
    assert!(r.contains(&HexCoord::from_qr(2, -3)));
    assert!(r.contains(&HexCoord::from_qr(3, -3)));
    assert!(r.contains(&HexCoord::from_qr(3, -2)));
    assert!(r.contains(&HexCoord::from_qr(3, -1)));
    assert!(r.contains(&HexCoord::from_qr(2, 0)));
    assert!(r.contains(&HexCoord::from_qr(1, 1)));
    assert!(r.contains(&HexCoord::from_qr(0, 1)));
    assert!(r.contains(&HexCoord::from_qr(-1, 1)));
    assert!(r.contains(&HexCoord::from_qr(-1, 0)));
    assert!(r.contains(&HexCoord::from_qr(-1, -1)));
    assert!(r.contains(&HexCoord::from_qr(0, -2)));
}

#[test]
fn ring_scenarios() {
    for &(q, r, radius) in &[(0, 0, 5usize), (4, 5, 3), (-88, 200, 300)] {
        let center = HexCoord::from_qr(q, r);
        let ring = center.ring(radius);
        assert_eq!(ring.len(), 6 * radius);
        let ri: i32 = radius as i32;
        assert!(ring.iter().all(|coord| coord.dist(center) == ri));
    }
}

#[test]
fn dist_properties_on_samples() {
    let a = HexCoord::new(3, -1, -2);
    let b = HexCoord::new(-4, 1, 3);
    assert_eq!(a.dist(a), 0);
    assert_eq!(b.dist(b), 0);
    assert_eq!(a.dist(b), b.dist(a));
    for i in 0..6 {
        let e = Edge::from_index(i);
        assert_eq!(a.dist(a.neighbour(e)), 1);
    }
}

#[test]
fn edge_index_round_trip() {
    for i in 0..6 {
        let e = Edge::from_index(i);
        assert_eq!(e.index(), i);
        assert_eq!(e.offset_flat().q() + e.offset_flat().r() + e.offset_flat().s(), 0);
    }
    assert_eq!(Edge::Q.offset_flat(), HexCoord::new(0, -1, 1));
    assert_eq!(Edge::QR.offset_flat(), HexCoord::new(1, -1, 0));
    assert_eq!(Edge::R.offset_flat(), HexCoord::new(1, 0, -1));
    assert_eq!(Edge::RS.offset_flat(), HexCoord::new(0, 1, -1));
    assert_eq!(Edge::S.offset_flat(), HexCoord::new(-1, 1, 0));
    assert_eq!(Edge::QS.offset_flat(), HexCoord::new(-1, 0, 1));
}

#[test]
fn scale_multiplies_components() {
    assert_eq!(HexCoord::new(1, -2, 1).scale(3), HexCoord::new(3, -6, 3));
    assert_eq!(HexCoord::new(1, -2, 1).scale(0), HexCoord::new(0, 0, 0));
    assert_eq!(HexCoord::new(1, -2, 1).scale(-2), HexCoord::new(-2, 4, -2));
}
