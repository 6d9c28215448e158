use vstd::prelude::*;

use crate::edge::Edge;
use crate::hex_coord::HexCoord;
use crate::orientation::HexOrientation;

verus! {

use vstd::arithmetic::div_mod::lemma_fundamental_div_mod;
use vstd::arithmetic::div_mod::lemma_fundamental_div_mod_converse;
use vstd::arithmetic::div_mod::lemma_mod_add_multiples_vanish;
use vstd::arithmetic::div_mod::lemma_mod_division_less_than_divisor;
use vstd::arithmetic::div_mod::lemma_mod_multiples_vanish;
use vstd::arithmetic::div_mod::lemma_small_mod;
use vstd::arithmetic::mul::lemma_mul_inequality;
use vstd::math::abs;

/// The largest radius whose cell count still fits in an `i32`.
pub const MAX_HEXAGON_RADIUS: usize = 26755;

/// Number of cells of the hexagonal region of the given radius, the radius
/// counting the centre cell as one: 3·(R−1)² + 3·(R−1) + 1.
pub open spec fn hexagon_area(radius: int) -> int {
    let r = radius - 1;
    3 * (r * r) + 3 * r + 1
}

/// The modular shift of the hex-mod numbering: 3·(R−1) + 2.
pub open spec fn hexagon_shift(radius: int) -> int {
    3 * (radius - 1) + 2
}

/// Whether a coordinate lies inside the hexagonal region of the given
/// radius: a valid cube coordinate at grid distance at most R−1 from the
/// origin, which for zero-sum triples means every component is at most R−1
/// in magnitude.
pub open spec fn in_hexagon(c: HexCoord, radius: int) -> bool {
    &&& c.sum_zero()
    &&& -(radius - 1) <= c.q <= radius - 1
    &&& -(radius - 1) <= c.r <= radius - 1
    &&& -(radius - 1) <= c.s <= radius - 1
}

/// The residue line of a coordinate under the hex-mod numbering: only `q`
/// and `s` take part.
pub open spec fn hexagon_raw(c: HexCoord, radius: int) -> int {
    c.q + c.s * hexagon_shift(radius)
}

/// The slot of a coordinate under the hex-mod numbering: the residue taken
/// into `[0, area)`.
pub open spec fn hexagon_slot(c: HexCoord, radius: int) -> int {
    hexagon_raw(c, radius) % hexagon_area(radius)
}

/// The exact domain of the slot computation as the modular formula
/// evaluates it: one shift by the area must reach a non-negative number, or
/// the residue must land exactly on slot zero.
pub open spec fn hexagon_has_slot(c: HexCoord, radius: int) -> bool {
    hexagon_raw(c, radius) + hexagon_area(radius) >= 0 || hexagon_slot(c, radius) == 0
}

/// Maps every cell of a bounded hexagonal region (all cells within grid
/// distance R−1 of the origin) onto the slots `0 .. 3(R−1)²+3(R−1)+1`,
/// bijectively, by the hex-mod numbering. Only the flat-top layout is
/// implemented; the pointy-top queries are ruled out by precondition.
#[derive(Clone, Copy, Debug)]
pub struct HexagonIndexer {
    pub radius: usize,
    pub capacity: i32,
    pub shift: i32,
    pub orientation: HexOrientation,
}

impl HexagonIndexer {
    /// The fields are the closed forms of the radius.
    pub open spec fn wf(self) -> bool {
        &&& 1 <= self.radius <= MAX_HEXAGON_RADIUS
        &&& self.capacity == hexagon_area(self.radius as int)
        &&& self.shift == hexagon_shift(self.radius as int)
    }

    pub fn new(radius: usize, orientation: HexOrientation) -> (indexer: HexagonIndexer)
        requires
            1 <= radius <= MAX_HEXAGON_RADIUS,
        ensures
            indexer.wf(),
            indexer.radius == radius,
            indexer.orientation == orientation,
            indexer.capacity == hexagon_area(radius as int),
            indexer.shift == hexagon_shift(radius as int),
    {
        let r: i32 = (radius as i32) - 1;
        proof {
            assert(r * r <= 26754 * 26754) by (nonlinear_arith)
                requires
                    0 <= r <= 26754,
            ;
        }
        let capacity: i32 = 3 * (r * r) + 3 * r + 1;
        let shift: i32 = 3 * r + 2;
        HexagonIndexer { radius, capacity, shift, orientation }
    }

    pub fn capacity(&self) -> (cap: usize)
        requires
            self.wf(),
        ensures
            cap == hexagon_area(self.radius as int),
    {
        proof {
            lemma_hexagon_area_bounds(self.radius as int);
        }
        self.capacity as usize
    }

    /// The slot of a coordinate, or nothing where the modular formula cannot
    /// produce a non-negative slot number (which happens only far outside
    /// the region: every in-region coordinate gets its slot).
    pub fn try_index(&self, coords: HexCoord) -> (result: Option<usize>)
        requires
            self.wf(),
            self.orientation is Flat,
        ensures
            result is Some <==> hexagon_has_slot(coords, self.radius as int),
            result matches Some(i) ==> i == hexagon_slot(coords, self.radius as int) && i
                < hexagon_area(self.radius as int),
            in_hexagon(coords, self.radius as int) ==> result == Some(
                hexagon_slot(coords, self.radius as int) as usize,
            ),
    {
        let ghost radius: int = self.radius as int;
        proof {
            lemma_hexagon_area_bounds(radius);
        }
        let q: i64 = coords.q as i64;
        let s: i64 = coords.s as i64;
        let shift: i64 = self.shift as i64;
        let area: i64 = self.capacity as i64;
        proof {
            assert(-(0x80000000i64 * 0x13a68) <= s * shift <= 0x80000000i64 * 0x13a68)
                by (nonlinear_arith)
                requires
                    -0x80000000 <= s <= 0x7fffffff,
                    0 < shift <= 0x13a68,
            ;
        }
        let raw: i64 = q + s * shift;
        let shifted: i64 = raw + area;
        proof {
            if in_hexagon(coords, radius) {
                lemma_hexagon_in_region_raw_bounds(coords, radius);
            }
        }
        if shifted >= 0 {
            let t: u64 = (shifted as u64) % (area as u64);
            proof {
                lemma_mod_division_less_than_divisor(shifted as int, area as int);
                lemma_mod_add_multiples_vanish(raw as int, area as int);
                assert(t == hexagon_slot(coords, radius));
            }
            Some(t as usize)
        } else {
            let neg: i64 = -raw;
            let m: u64 = (neg as u64) % (area as u64);
            proof {
                lemma_mod_division_less_than_divisor(neg as int, area as int);
                lemma_fundamental_div_mod(neg as int, area as int);
                let nd: int = neg as int / area as int;
                assert((-nd) * (area as int) == -(nd * (area as int)) && (-nd - 1) * (area as int)
                    == -(nd * (area as int)) - area) by (nonlinear_arith);
                if m == 0 {
                    lemma_fundamental_div_mod_converse(raw as int, area as int, -nd, 0);
                } else {
                    lemma_fundamental_div_mod_converse(
                        raw as int,
                        area as int,
                        -nd - 1,
                        area - m,
                    );
                }
            }
            if m == 0 {
                Some(0)
            } else {
                None
            }
        }
    }

    /// The coordinate stored at a slot of the region: the closed-form
    /// inverse of the hex-mod numbering.
    pub fn coords(&self, index: usize) -> (c: HexCoord)
        requires
            self.wf(),
            self.orientation is Flat,
            index < hexagon_area(self.radius as int),
        ensures
            c == hexagon_coords(self.radius as int, index as int),
            in_hexagon(c, self.radius as int),
            hexagon_slot(c, self.radius as int) == index,
            hexagon_has_slot(c, self.radius as int),
    {
        let ghost radius: int = self.radius as int;
        proof {
            lemma_hexagon_area_bounds(radius);
            lemma_hexagon_inverse_bounds(radius, index as int);
            lemma_hexagon_coords_in_region(radius, index as int);
            lemma_hexagon_index_of_coords(radius, index as int);
        }
        let i: i64 = index as i64;
        let r: i64 = (self.radius as i64) - 1;
        let shift: i64 = self.shift as i64;
        let ms: i64 = (i + r) / shift;
        let mcs: i64 = (i + 2 * r) / (shift - 1);
        proof {
            assert(ms * (r + 1) <= 26754 * 26755 && mcs * r <= 26755 * 26754 && ms * (2 * r + 1)
                <= 26754 * 53509 && mcs * (r + 1) <= 26755 * 26755 && ms * r <= 26754 * 26754
                && mcs * (2 * r + 1) <= 26755 * 53509 && ms * (r + 1) >= 0 && mcs * r >= 0 && ms * (
            2 * r + 1) >= 0 && mcs * (r + 1) >= 0 && ms * r >= 0 && mcs * (2 * r + 1) >= 0)
                by (nonlinear_arith)
                requires
                    0 <= ms <= 26754,
                    0 <= mcs <= 26755,
                    0 <= r <= 26754,
            ;
        }
        let x: i64 = ms * (r + 1) - mcs * r;
        let y: i64 = i - ms * (2 * r + 1) - mcs * (r + 1);
        let z: i64 = -i + ms * r + mcs * (2 * r + 1);
        HexCoord { q: y as i32, r: z as i32, s: x as i32 }
    }

    /// The slot of a coordinate; the caller must have established that the
    /// coordinate resolves to one, most simply by region membership.
    pub fn index(&self, coords: HexCoord) -> (slot: usize)
        requires
            self.wf(),
            self.orientation is Flat,
            hexagon_has_slot(coords, self.radius as int),
        ensures
            slot == hexagon_slot(coords, self.radius as int),
            slot < hexagon_area(self.radius as int),
    {
        match self.try_index(coords) {
            Some(slot) => slot,
            None => {
                proof {
                    assert(false);
                }
                0
            },
        }
    }
}

/// The first quotient of the inverse hex-mod formulas.
pub open spec fn hexagon_ms(radius: int, i: int) -> int {
    (i + (radius - 1)) / hexagon_shift(radius)
}

/// The second quotient of the inverse hex-mod formulas.
pub open spec fn hexagon_mcs(radius: int, i: int) -> int {
    (i + 2 * (radius - 1)) / (hexagon_shift(radius) - 1)
}

/// The coordinate of a slot under the inverse hex-mod formulas.
pub open spec fn hexagon_coords(radius: int, i: int) -> HexCoord {
    let r = radius - 1;
    let ms = hexagon_ms(radius, i);
    let mcs = hexagon_mcs(radius, i);
    let x = ms * (r + 1) - mcs * r;
    let y = i - ms * (2 * r + 1) - mcs * (r + 1);
    let z = -i + ms * r + mcs * (2 * r + 1);
    HexCoord { q: y as i32, r: z as i32, s: x as i32 }
}

/// For a slot of the region, the two quotients of the inverse formulas stay
/// within one of each other, and the three coordinate components they
/// produce all lie within R−1 of zero and cancel out.
proof fn lemma_hexagon_inverse_bounds(radius: int, i: int)
    requires
        1 <= radius <= MAX_HEXAGON_RADIUS,
        0 <= i < hexagon_area(radius),
    ensures
        ({
            let r = radius - 1;
            let ms = hexagon_ms(radius, i);
            let mcs = hexagon_mcs(radius, i);
            let x = ms * (r + 1) - mcs * r;
            let y = i - ms * (2 * r + 1) - mcs * (r + 1);
            let z = -i + ms * r + mcs * (2 * r + 1);
            &&& 0 <= ms <= r
            &&& ms <= mcs <= ms + 1
            &&& -r <= x <= r
            &&& -r <= y <= r
            &&& -r <= z <= r
            &&& x + y + z == 0
        }),
{
    let r = radius - 1;
    let s = hexagon_shift(radius);
    let a = hexagon_area(radius);
    let ms = hexagon_ms(radius, i);
    let mcs = hexagon_mcs(radius, i);
    let alpha = (i + r) % s;
    let beta = (i + 2 * r) % (s - 1);
    lemma_fundamental_div_mod(i + r, s);
    lemma_mod_division_less_than_divisor(i + r, s);
    lemma_fundamental_div_mod(i + 2 * r, s - 1);
    lemma_mod_division_less_than_divisor(i + 2 * r, s - 1);
    vstd::arithmetic::div_mod::lemma_div_pos_is_pos(i + r, s);
    vstd::arithmetic::div_mod::lemma_div_pos_is_pos(i + 2 * r, s - 1);
    assert(i + r == s * ms + alpha);
    assert(i + 2 * r == (s - 1) * mcs + beta);
    // The quotients stay small: the numerators stay under the next multiple.
    assert(ms <= r) by {
        if ms >= r + 1 {
            lemma_mul_inequality(r + 1, ms, s);
            assert((r + 1) * s == 3 * (r * r) + 5 * r + 2) by (nonlinear_arith)
                requires
                    s == 3 * r + 2,
            ;
        }
    }
    assert(mcs <= r + 1) by {
        if mcs >= r + 2 {
            lemma_mul_inequality(r + 2, mcs, s - 1);
            assert((r + 2) * (s - 1) == 3 * (r * r) + 7 * r + 2) by (nonlinear_arith)
                requires
                    s == 3 * r + 2,
            ;
        }
    }
    assert(ms <= mcs) by {
        if mcs <= ms - 1 {
            lemma_mul_inequality(mcs, ms - 1, s - 1);
            assert((ms - 1) * (s - 1) == ms * s - ms - s + 1) by (nonlinear_arith);
        }
    }
    assert(mcs <= ms + 1) by {
        if mcs >= ms + 2 {
            lemma_mul_inequality(ms + 2, mcs, s - 1);
            assert((ms + 2) * (s - 1) == ms * s - ms + 2 * s - 2) by (nonlinear_arith);
        }
    }
    if mcs == ms {
        // Subtracting the two decompositions pins the remainders together.
        assert((s - 1) * mcs == s * ms - ms) by (nonlinear_arith)
            requires
                mcs == ms,
        ;
        assert(beta == alpha + r + ms);
        assert(ms * (r + 1) - mcs * r == ms) by (nonlinear_arith)
            requires
                mcs == ms,
        ;
        assert(i - ms * (2 * r + 1) - mcs * (r + 1) == i - s * ms) by (nonlinear_arith)
            requires
                mcs == ms,
                s == 3 * r + 2,
        ;
        assert(-i + ms * r + mcs * (2 * r + 1) == -(i - s * ms) - ms) by (nonlinear_arith)
            requires
                mcs == ms,
                s == 3 * r + 2,
        ;
    } else {
        assert(mcs == ms + 1);
        assert((s - 1) * mcs == s * ms + s - ms - 1) by (nonlinear_arith)
            requires
                mcs == ms + 1,
        ;
        assert(beta == alpha + ms - 2 * r - 1);
        assert(ms * (r + 1) - mcs * r == ms - r) by (nonlinear_arith)
            requires
                mcs == ms + 1,
        ;
        assert(i - ms * (2 * r + 1) - mcs * (r + 1) == i - s * ms - r - 1) by (nonlinear_arith)
            requires
                mcs == ms + 1,
                s == 3 * r + 2,
        ;
        assert(-i + ms * r + mcs * (2 * r + 1) == -(i - s * ms) - ms + 2 * r + 1)
            by (nonlinear_arith)
            requires
                mcs == ms + 1,
                s == 3 * r + 2,
        ;
    }
}

/// The coordinate of every slot of the region lies inside the region.
pub proof fn lemma_hexagon_coords_in_region(radius: int, i: int)
    requires
        1 <= radius <= MAX_HEXAGON_RADIUS,
        0 <= i < hexagon_area(radius),
    ensures
        in_hexagon(hexagon_coords(radius, i), radius),
{
    lemma_hexagon_inverse_bounds(radius, i);
}

/// One direction of the hex-mod bijection: taking the slot of the
/// coordinate of any slot of the region gives that slot back.
pub proof fn lemma_hexagon_index_of_coords(radius: int, i: int)
    requires
        1 <= radius <= MAX_HEXAGON_RADIUS,
        0 <= i < hexagon_area(radius),
    ensures
        hexagon_has_slot(hexagon_coords(radius, i), radius),
        hexagon_slot(hexagon_coords(radius, i), radius) == i,
{
    lemma_hexagon_inverse_bounds(radius, i);
    let r = radius - 1;
    let s = hexagon_shift(radius);
    let a = hexagon_area(radius);
    let ms = hexagon_ms(radius, i);
    let mcs = hexagon_mcs(radius, i);
    let c = hexagon_coords(radius, i);
    let x = ms * (r + 1) - mcs * r;
    let y = i - ms * (2 * r + 1) - mcs * (r + 1);
    assert(c.q == y && c.s == x);
    // The residue line of the produced coordinate differs from the slot by
    // a whole number of areas.
    assert(y + x * s == i + (ms - mcs) * a) by (nonlinear_arith)
        requires
            s == 3 * r + 2,
            a == 3 * (r * r) + 3 * r + 1,
            x == ms * (r + 1) - mcs * r,
            y == i - ms * (2 * r + 1) - mcs * (r + 1),
    ;
    assert(hexagon_raw(c, radius) == a * (ms - mcs) + i) by (nonlinear_arith)
        requires
            hexagon_raw(c, radius) == y + x * s,
            y + x * s == i + (ms - mcs) * a,
    ;
    lemma_mod_multiples_vanish(ms - mcs, i, a);
    lemma_small_mod(i as nat, a as nat);
    assert((ms - mcs == 0 ==> a * (ms - mcs) == 0) && (ms - mcs == -1 ==> a * (ms - mcs) == -a))
        by (nonlinear_arith);
}

/// The other direction of the hex-mod bijection: the inverse formulas
/// recover every in-region coordinate from its slot.
pub proof fn lemma_hexagon_coords_of_index(c: HexCoord, radius: int)
    requires
        1 <= radius <= MAX_HEXAGON_RADIUS,
        in_hexagon(c, radius),
    ensures
        hexagon_coords(radius, hexagon_slot(c, radius)) == c,
{
    let r = radius - 1;
    let s = hexagon_shift(radius);
    let a = hexagon_area(radius);
    let q = c.q as int;
    let rr = c.r as int;
    let ss = c.s as int;
    let raw = hexagon_raw(c, radius);
    lemma_hexagon_in_region_raw_bounds(c, radius);
    let k: int = if raw >= 0 {
        0
    } else {
        1
    };
    assert((k == 0 ==> k * a == 0 && k * (r + 1) == 0 && k * r == 0 && a * -k == 0) && (k == 1
        ==> k * a == a && k * (r + 1) == r + 1 && k * r == r && a * -k == -a))
        by (nonlinear_arith);
    let i = raw + k * a;
    assert(0 <= i < a);
    assert(hexagon_slot(c, radius) == i) by {
        lemma_mod_multiples_vanish(-k, i, a);
        assert(a * -k + i == raw);
        lemma_small_mod(i as nat, a as nat);
    }
    let ms = hexagon_ms(radius, i);
    let mcs = hexagon_mcs(radius, i);
    let alpha = q + r + k * (r + 1);
    let beta = q + ss + 2 * r - k * r;
    assert(i + r == s * (ss + k * r) + alpha) by (nonlinear_arith)
        requires
            i == q + ss * s + k * a,
            s == 3 * r + 2,
            a == 3 * (r * r) + 3 * r + 1,
            alpha == q + r + k * (r + 1),
    ;
    assert(0 <= alpha < s);
    lemma_fundamental_div_mod_converse(i + r, s, ss + k * r, alpha);
    assert(ms == ss + k * r);
    assert(i + 2 * r == (s - 1) * (ss + k * (r + 1)) + beta) by (nonlinear_arith)
        requires
            i == q + ss * s + k * a,
            s == 3 * r + 2,
            a == 3 * (r * r) + 3 * r + 1,
            beta == q + ss + 2 * r - k * r,
    ;
    assert(0 <= beta < s - 1) by {
        assert(q + ss == -rr);
    }
    lemma_fundamental_div_mod_converse(i + 2 * r, s - 1, ss + k * (r + 1), beta);
    assert(mcs == ss + k * (r + 1));
    assert(ms * (r + 1) - mcs * r == ss) by (nonlinear_arith)
        requires
            ms == ss + k * r,
            mcs == ss + k * (r + 1),
    ;
    assert(i - ms * (2 * r + 1) - mcs * (r + 1) == q) by (nonlinear_arith)
        requires
            i == q + ss * s + k * a,
            s == 3 * r + 2,
            a == 3 * (r * r) + 3 * r + 1,
            ms == ss + k * r,
            mcs == ss + k * (r + 1),
    ;
    assert(-i + ms * r + mcs * (2 * r + 1) == rr) by (nonlinear_arith)
        requires
            i == q + ss * s + k * a,
            s == 3 * r + 2,
            a == 3 * (r * r) + 3 * r + 1,
            ms == ss + k * r,
            mcs == ss + k * (r + 1),
            q + rr + ss == 0,
    ;
}

/// The cell count of a well-formed radius is positive and fits the machine:
/// it is the area closed form, which grows with the radius.
pub proof fn lemma_hexagon_area_bounds(radius: int)
    requires
        1 <= radius <= MAX_HEXAGON_RADIUS,
    ensures
        1 <= hexagon_area(radius) <= 0x7fffffff,
        hexagon_shift(radius) >= 2,
{
    let r = radius - 1;
    assert(0 <= r * r <= 26754 * 26754) by (nonlinear_arith)
        requires
            0 <= r <= 26754,
    ;
}

/// The component-bound description of the region agrees with the distance
/// description: a valid cube coordinate lies within the radius exactly when
/// its grid distance from the origin is below it. For zero-sum triples the
/// component deltas' magnitudes sum to twice their maximum.
pub proof fn lemma_in_hexagon_iff_distance(c: HexCoord, radius: int)
    requires
        1 <= radius,
        c.sum_zero(),
    ensures
        in_hexagon(c, radius) <==> (HexCoord { q: 0i32, r: 0i32, s: 0i32 }).spec_dist(c) < radius,
{
    let origin = HexCoord { q: 0i32, r: 0i32, s: 0i32 };
    let aq = abs(0 - c.q);
    let ar = abs(0 - c.r);
    let asum = abs(0 - c.s);
    let m: int = if aq >= ar && aq >= asum {
        aq as int
    } else if ar >= asum {
        ar as int
    } else {
        asum as int
    };
    assert(aq + ar + asum == 2 * m);
    vstd::arithmetic::div_mod::lemma_div_multiples_vanish(m, 2);
    assert(origin.spec_dist(c) == m);
}

/// One step in direction `QR` advances the residue line by exactly one, and
/// hence the slot by one, modulo the area. This is what makes a run of
/// three `QR`-adjacent cells occupy three consecutive slots, up to
/// wraparound.
pub proof fn lemma_hexagon_slot_qr_step(c: HexCoord, radius: int)
    requires
        2 <= radius <= MAX_HEXAGON_RADIUS,
        c.q + 1 <= i32::MAX,
        i32::MIN <= c.r - 1,
    ensures
        hexagon_raw(c.spec_neighbour(Edge::QR), radius) == hexagon_raw(c, radius) + 1,
        hexagon_slot(c.spec_neighbour(Edge::QR), radius) == (hexagon_slot(c, radius) + 1)
            % hexagon_area(radius),
{
    let a = hexagon_area(radius);
    let raw = hexagon_raw(c, radius);
    lemma_hexagon_area_bounds(radius);
    assert(a >= 7) by {
        assert((radius - 1) * (radius - 1) >= 1) by (nonlinear_arith)
            requires
                radius >= 2,
        ;
    }
    vstd::arithmetic::div_mod::lemma_add_mod_noop(raw, 1, a);
    lemma_small_mod(1nat, a as nat);
}

/// Inside the region the residue line stays within one area of zero, so the
/// modular formula always finds the slot of an in-region coordinate.
pub proof fn lemma_hexagon_in_region_raw_bounds(c: HexCoord, radius: int)
    requires
        1 <= radius <= MAX_HEXAGON_RADIUS,
        in_hexagon(c, radius),
    ensures
        -(hexagon_area(radius) - 1) <= hexagon_raw(c, radius) <= hexagon_area(radius) - 1,
{
    let r = radius - 1;
    let shift = hexagon_shift(radius);
    lemma_mul_inequality(-r, c.s as int, shift);
    lemma_mul_inequality(c.s as int, r, shift);
    assert(-r * shift == -(3 * (r * r) + 2 * r) && r * shift == 3 * (r * r) + 2 * r)
        by (nonlinear_arith)
        requires
            shift == 3 * r + 2,
    ;
}

} // verus!
