use vstd::prelude::*;

use crate::edge::Edge;

verus! {

use vstd::math::abs;

/// One cell of a hexagonal grid in cube coordinates (q, r, s). Values built
/// through the constructors and the arithmetic operations keep the cube
/// invariant: the three components sum to zero.
#[derive(Clone, Copy, Debug, Hash, PartialEq, Eq, Structural)]
pub struct HexCoord {
    pub q: i32,
    pub r: i32,
    pub s: i32,
}

impl HexCoord {
    /// The cube-coordinate invariant.
    pub open spec fn sum_zero(self) -> bool {
        self.q + self.r + self.s == 0
    }

    /// Grid distance: half the taxicab distance of the component deltas.
    pub open spec fn spec_dist(self, rhs: HexCoord) -> int {
        (abs(self.q - rhs.q) + abs(self.r - rhs.r) + abs(self.s - rhs.s)) as int / 2
    }

    /// Componentwise sum; exact whenever every component stays in range.
    pub open spec fn spec_add(self, rhs: HexCoord) -> HexCoord {
        HexCoord {
            q: (self.q + rhs.q) as i32,
            r: (self.r + rhs.r) as i32,
            s: (self.s + rhs.s) as i32,
        }
    }

    /// Componentwise difference; exact whenever every component stays in range.
    pub open spec fn spec_sub(self, rhs: HexCoord) -> HexCoord {
        HexCoord {
            q: (self.q - rhs.q) as i32,
            r: (self.r - rhs.r) as i32,
            s: (self.s - rhs.s) as i32,
        }
    }

    /// The cell one step away along an edge.
    pub open spec fn spec_neighbour(self, edge: Edge) -> HexCoord {
        self.spec_add(edge.spec_offset())
    }

    pub fn new(q: i32, r: i32, s: i32) -> (c: HexCoord)
        requires
            q + r + s == 0,
        ensures
            c == (HexCoord { q, r, s }),
            c.sum_zero(),
    {
        HexCoord { q, r, s }
    }

    pub fn from_axial(q: i32, r: i32) -> (c: HexCoord)
        requires
            i32::MIN <= -(q + r) <= i32::MAX,
        ensures
            c.q == q && c.r == r && c.s == -(q + r),
            c.sum_zero(),
    {
        let s64: i64 = -(q as i64) - (r as i64);
        HexCoord { q, r, s: s64 as i32 }
    }

    pub fn from_qr(q: i32, r: i32) -> (c: HexCoord)
        requires
            i32::MIN <= -(q + r) <= i32::MAX,
        ensures
            c.q == q && c.r == r && c.s == -(q + r),
            c.sum_zero(),
    {
        HexCoord::from_axial(q, r)
    }

    pub fn q(&self) -> (v: i32)
        ensures
            v == self.q,
    {
        self.q
    }

    pub fn r(&self) -> (v: i32)
        ensures
            v == self.r,
    {
        self.r
    }

    pub fn s(&self) -> (v: i32)
        ensures
            v == self.s,
    {
        self.s
    }

    pub fn qrs(&self) -> (v: (i32, i32, i32))
        ensures
            v == (self.q, self.r, self.s),
    {
        (self.q, self.r, self.s)
    }

    pub fn add(self, rhs: HexCoord) -> (c: HexCoord)
        requires
            i32::MIN <= self.q + rhs.q <= i32::MAX,
            i32::MIN <= self.r + rhs.r <= i32::MAX,
            i32::MIN <= self.s + rhs.s <= i32::MAX,
        ensures
            c == self.spec_add(rhs),
            self.sum_zero() && rhs.sum_zero() ==> c.sum_zero(),
    {
        HexCoord { q: self.q + rhs.q, r: self.r + rhs.r, s: self.s + rhs.s }
    }

    pub fn sub(self, rhs: HexCoord) -> (c: HexCoord)
        requires
            i32::MIN <= self.q - rhs.q <= i32::MAX,
            i32::MIN <= self.r - rhs.r <= i32::MAX,
            i32::MIN <= self.s - rhs.s <= i32::MAX,
        ensures
            c == self.spec_sub(rhs),
            self.sum_zero() && rhs.sum_zero() ==> c.sum_zero(),
    {
        HexCoord { q: self.q - rhs.q, r: self.r - rhs.r, s: self.s - rhs.s }
    }

    pub fn scale(self, n: i32) -> (c: HexCoord)
        requires
            i32::MIN <= self.q * n <= i32::MAX,
            i32::MIN <= self.r * n <= i32::MAX,
            i32::MIN <= self.s * n <= i32::MAX,
        ensures
            c.q == self.q * n && c.r == self.r * n && c.s == self.s * n,
            self.sum_zero() ==> c.sum_zero(),
    {
        let c = HexCoord { q: self.q * n, r: self.r * n, s: self.s * n };
        proof {
            if self.sum_zero() {
                assert(self.q * n + self.r * n + self.s * n == (self.q + self.r + self.s) * n)
                    by (nonlinear_arith);
                assert((self.q + self.r + self.s) * n == 0) by (nonlinear_arith)
                    requires
                        self.q + self.r + self.s == 0,
                ;
            }
        }
        c
    }

    pub fn dist(&self, rhs: HexCoord) -> (d: i32)
        requires
            self.spec_dist(rhs) <= i32::MAX,
        ensures
            d == self.spec_dist(rhs),
            0 <= d,
    {
        let dq: i64 = self.q as i64 - rhs.q as i64;
        let dr: i64 = self.r as i64 - rhs.r as i64;
        let ds: i64 = self.s as i64 - rhs.s as i64;
        let aq: i64 = if dq < 0 { -dq } else { dq };
        let ar: i64 = if dr < 0 { -dr } else { dr };
        let as_: i64 = if ds < 0 { -ds } else { ds };
        let total: i64 = aq + ar + as_;
        let half: i64 = total / 2;
        half as i32
    }

    pub fn neighbour(self, edge: Edge) -> (c: HexCoord)
        requires
            i32::MIN <= self.q + edge.spec_offset().q <= i32::MAX,
            i32::MIN <= self.r + edge.spec_offset().r <= i32::MAX,
            i32::MIN <= self.s + edge.spec_offset().s <= i32::MAX,
        ensures
            c == self.spec_neighbour(edge),
            self.sum_zero() ==> c.sum_zero(),
    {
        self.add(edge.offset_flat())
    }

    /// Walks the full circle of cells at exact grid distance `radius`,
    /// starting at the corner `radius` steps in direction `S` and taking
    /// `radius` steps along each of the six edge directions in turn.
    pub fn ring(self, radius: usize) -> (result: Vec<HexCoord>)
        requires
            radius <= i32::MAX,
            i32::MIN <= self.q - radius && self.q + radius <= i32::MAX,
            i32::MIN <= self.r - radius && self.r + radius <= i32::MAX,
            i32::MIN <= self.s - radius && self.s + radius <= i32::MAX,
        ensures
            result.len() == 6 * radius,
            forall|j: int|
                0 <= j < 6 * radius ==> result[j] == spec_ring_coord(
                    self,
                    radius as int,
                    j,
                ),
    {
        let k: i32 = radius as i32;
        let mut result: Vec<HexCoord> = Vec::new();
        let step: HexCoord = Edge::S.offset_flat().scale(k);
        proof {
            assert(step.q == -1 * k && step.r == 1 * k && step.s == 0 * k);
            assert(-1 * k == -k && 1 * k == k && 0 * k == 0) by (nonlinear_arith);
        }
        let mut coords: HexCoord = self.add(step);
        let mut e: usize = 0;
        while e < 6
            invariant
                e <= 6,
                radius <= i32::MAX,
                k == radius,
                i32::MIN <= self.q - radius && self.q + radius <= i32::MAX,
                i32::MIN <= self.r - radius && self.r + radius <= i32::MAX,
                i32::MIN <= self.s - radius && self.s + radius <= i32::MAX,
                result.len() == e * radius,
                forall|j: int|
                    0 <= j < e * radius ==> result[j] == spec_ring_coord(
                        self,
                        radius as int,
                        j,
                    ),
                coords.q == self.q + ring_delta(radius as int, e as int, 0).0,
                coords.r == self.r + ring_delta(radius as int, e as int, 0).1,
                coords.s == self.s + ring_delta(radius as int, e as int, 0).2,
            decreases 6 - e,
        {
            let edge = Edge::from_index(e);
            let mut t: usize = 0;
            while t < radius
                invariant
                    e < 6,
                    t <= radius,
                    radius <= i32::MAX,
                    k == radius,
                    edge == Edge::spec_from_index(e as int),
                    i32::MIN <= self.q - radius && self.q + radius <= i32::MAX,
                    i32::MIN <= self.r - radius && self.r + radius <= i32::MAX,
                    i32::MIN <= self.s - radius && self.s + radius <= i32::MAX,
                    result.len() == e * radius + t,
                    forall|j: int|
                        0 <= j < e * radius + t ==> result[j] == spec_ring_coord(
                            self,
                            radius as int,
                            j,
                        ),
                    coords.q == self.q + ring_delta(radius as int, e as int, t as int).0,
                    coords.r == self.r + ring_delta(radius as int, e as int, t as int).1,
                    coords.s == self.s + ring_delta(radius as int, e as int, t as int).2,
                decreases radius - t,
            {
                result.push(coords);
                proof {
                    let j0: int = e * radius + t;
                    vstd::arithmetic::div_mod::lemma_fundamental_div_mod_converse(
                        j0,
                        radius as int,
                        e as int,
                        t as int,
                    );
                    assert(result[j0] == spec_ring_coord(self, radius as int, j0));
                }
                coords = coords.neighbour(edge);
                t = t + 1;
            }
            proof {
                assert((e + 1) * (radius as int) == e * (radius as int) + radius) by (nonlinear_arith);
            }
            e = e + 1;
        }
        result
    }
}

/// The offset from a ring's centre of the cell reached after `t` steps along
/// the ring's segment number `e`, for a ring of radius `k`. Segment `e`
/// starts at the corner `k` steps from the centre and walks edge direction
/// `e`; the positions with `t == k` coincide with the start of the next
/// segment.
pub open spec fn ring_delta(k: int, e: int, t: int) -> (int, int, int) {
    if e == 1 {
        (-k + t, -t, k)
    } else if e == 2 {
        (t, -k, k - t)
    } else if e == 3 {
        (k, -k + t, -t)
    } else if e == 4 {
        (k - t, t, -k)
    } else if e == 5 {
        (-t, k, -k + t)
    } else {
        (-k, k - t, t)
    }
}

/// The cell at position `j` of the ring of radius `k` around `c`, counted
/// along the walk that `ring` performs. Exact whenever every component of
/// `c` stays within `k` of the integer range.
pub open spec fn spec_ring_coord(c: HexCoord, k: int, j: int) -> HexCoord {
    let d = ring_delta(k, j / k, j % k);
    HexCoord { q: (c.q + d.0) as i32, r: (c.r + d.1) as i32, s: (c.s + d.2) as i32 }
}

/// Every cell of a ring lies at grid distance exactly `k` from the centre,
/// whatever is stored anywhere and whatever the centre is.
pub proof fn lemma_ring_distance(c: HexCoord, k: int, j: int)
    requires
        1 <= k,
        0 <= j < 6 * k,
        i32::MIN <= c.q - k && c.q + k <= i32::MAX,
        i32::MIN <= c.r - k && c.r + k <= i32::MAX,
        i32::MIN <= c.s - k && c.s + k <= i32::MAX,
    ensures
        c.spec_dist(spec_ring_coord(c, k, j)) == k,
{
    let e: int = j / k;
    let t: int = j % k;
    vstd::arithmetic::div_mod::lemma_fundamental_div_mod(j, k);
    vstd::arithmetic::div_mod::lemma_mod_division_less_than_divisor(j, k);
    vstd::arithmetic::div_mod::lemma_div_pos_is_pos(j, k);
    assert(e < 6) by {
        if e >= 6 {
            assert(j == k * e + t);
            assert(k * e >= k * 6) by (nonlinear_arith)
                requires
                    k >= 1,
                    e >= 6,
            ;
        }
    }
    assert(0 <= t < k);
    assert(c.spec_dist(spec_ring_coord(c, k, j)) == k);
}

/// Every cell of a ring keeps the cube invariant when the centre has it.
pub proof fn lemma_ring_sum_zero(c: HexCoord, k: int, j: int)
    requires
        c.sum_zero(),
        1 <= k,
        0 <= j < 6 * k,
        i32::MIN <= c.q - k && c.q + k <= i32::MAX,
        i32::MIN <= c.r - k && c.r + k <= i32::MAX,
        i32::MIN <= c.s - k && c.s + k <= i32::MAX,
    ensures
        spec_ring_coord(c, k, j).sum_zero(),
{
    vstd::arithmetic::div_mod::lemma_fundamental_div_mod(j, k);
    vstd::arithmetic::div_mod::lemma_mod_division_less_than_divisor(j, k);
    vstd::arithmetic::div_mod::lemma_div_pos_is_pos(j, k);
    let e: int = j / k;
    let t: int = j % k;
    assert(e < 6) by {
        if e >= 6 {
            assert(j == k * e + t);
            assert(k * e >= k * 6) by (nonlinear_arith)
                requires
                    k >= 1,
                    e >= 6,
            ;
        }
    }
}

/// The grid distance from a cell to itself is zero.
pub proof fn lemma_dist_self(c: HexCoord)
    ensures
        c.spec_dist(c) == 0,
{
}

/// The grid distance is symmetric.
pub proof fn lemma_dist_symmetric(a: HexCoord, b: HexCoord)
    ensures
        a.spec_dist(b) == b.spec_dist(a),
{
}

/// Every cell is at grid distance one from each of its six neighbours.
pub proof fn lemma_dist_neighbour(c: HexCoord, edge: Edge)
    requires
        i32::MIN + 1 <= c.q <= i32::MAX - 1,
        i32::MIN + 1 <= c.r <= i32::MAX - 1,
        i32::MIN + 1 <= c.s <= i32::MAX - 1,
    ensures
        c.spec_dist(c.spec_neighbour(edge)) == 1,
{
}

} // verus!
