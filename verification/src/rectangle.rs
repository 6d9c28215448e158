use vstd::prelude::*;

use crate::hex_coord::HexCoord;
use crate::orientation::HexOrientation;

verus! {

use vstd::arithmetic::div_mod::lemma_fundamental_div_mod;
use vstd::arithmetic::div_mod::lemma_fundamental_div_mod_converse;
use vstd::arithmetic::div_mod::lemma_mod_division_less_than_divisor;
use vstd::arithmetic::div_mod::lemma_mod_multiples_basic;
use vstd::arithmetic::mul::lemma_mul_inequality;
use vstd::arithmetic::mul::lemma_mul_nonnegative;

/// Division by two as the machine performs it on signed integers: rounding
/// towards zero.
pub open spec fn div2_trunc(x: int) -> int {
    if x >= 0 {
        x / 2
    } else {
        -((-x) / 2)
    }
}

/// The internal row a coordinate falls in, by orientation.
pub open spec fn rect_row(c: HexCoord, o: HexOrientation) -> int {
    if o is Flat {
        c.r + div2_trunc(c.q as int)
    } else {
        c.r as int
    }
}

/// The internal column a coordinate falls in, by orientation.
pub open spec fn rect_col(c: HexCoord, o: HexOrientation) -> int {
    if o is Flat {
        c.q as int
    } else {
        c.q + div2_trunc(c.r as int)
    }
}

/// The linear slot the row/column pair maps to: columns first.
pub open spec fn rect_lin(c: HexCoord, o: HexOrientation, height: int) -> int {
    rect_col(c, o) * height + rect_row(c, o)
}

/// Whether a coordinate lies inside a rectangle of the given dimensions: a
/// valid cube coordinate whose row and column both fall within range.
pub open spec fn in_rectangle(c: HexCoord, o: HexOrientation, width: int, height: int) -> bool {
    &&& c.sum_zero()
    &&& 0 <= rect_col(c, o) < width
    &&& 0 <= rect_row(c, o) < height
}

/// The coordinate of a slot: the column is the slot divided by the height,
/// the row the remainder, and the axial components follow by orientation.
pub open spec fn rect_coords(o: HexOrientation, height: int, i: int) -> HexCoord {
    let col = i / height;
    let row = i % height;
    if o is Flat {
        HexCoord {
            q: col as i32,
            r: (row - col / 2) as i32,
            s: (-col + col / 2 - row) as i32,
        }
    } else {
        HexCoord {
            q: (col - row / 2) as i32,
            r: row as i32,
            s: (-col + row / 2 - row) as i32,
        }
    }
}

/// The axial coordinate a display offset coordinate addresses, with odd
/// rows or columns shifted by the offset convention of the orientation.
pub open spec fn offset_to_axial(o: HexOrientation, col: int, row: int) -> HexCoord {
    if o is Flat {
        HexCoord { q: col as i32, r: (row - col / 2) as i32, s: (-col + col / 2 - row) as i32 }
    } else {
        HexCoord { q: (col - row / 2) as i32, r: row as i32, s: (-col + row / 2 - row) as i32 }
    }
}

/// Whether the components of the converted offset coordinate stay in range.
pub open spec fn offset_to_axial_fits(o: HexOrientation, col: int, row: int) -> bool {
    if o is Flat {
        i32::MIN <= row - col / 2 <= i32::MAX && i32::MIN <= -col + col / 2 - row <= i32::MAX
            && i32::MIN <= col <= i32::MAX
    } else {
        i32::MIN <= col - row / 2 <= i32::MAX && i32::MIN <= -col + row / 2 - row <= i32::MAX
            && i32::MIN <= row <= i32::MAX
    }
}

/// Maps every cell of a `width × height` region (a parallelogram in axial
/// coordinates, offset row by row or column by column depending on the
/// orientation) onto the slots `0 .. width·height`, bijectively.
#[derive(Clone, Copy, Debug)]
pub struct RectangleIndexer {
    pub height: i32,
    pub capacity: i32,
    pub orientation: HexOrientation,
}

impl RectangleIndexer {
    /// The height divides the capacity: the width is their quotient.
    pub open spec fn wf(self) -> bool {
        &&& 1 <= self.height <= self.capacity
        &&& self.capacity as int % self.height as int == 0
    }

    /// The width of the rectangle, recovered from the stored fields.
    pub open spec fn spec_width(self) -> int {
        self.capacity as int / self.height as int
    }

    /// The stored fields recover the construction dimensions.
    pub proof fn wf_facts(self)
        requires
            self.wf(),
        ensures
            1 <= self.spec_width(),
            self.spec_width() * self.height as int == self.capacity as int,
    {
        lemma_fundamental_div_mod(self.capacity as int, self.height as int);
        let w = self.spec_width();
        let h = self.height as int;
        assert(h * w == w * h) by (nonlinear_arith);
        if w <= 0 {
            assert(h * w <= 0) by (nonlinear_arith)
                requires
                    1 <= h,
                    w <= 0,
            ;
        }
    }

    pub fn new(width: usize, height: usize, orientation: HexOrientation) -> (indexer:
        RectangleIndexer)
        requires
            1 <= width,
            1 <= height,
            width * height <= i32::MAX,
        ensures
            indexer.wf(),
            indexer.height == height,
            indexer.capacity == width * height,
            indexer.orientation == orientation,
            indexer.spec_width() == width,
    {
        proof {
            lemma_mul_nonnegative(width as int, height as int);
            assert(height <= width * height) by (nonlinear_arith)
                requires
                    1 <= width,
                    1 <= height,
            ;
            lemma_mod_multiples_basic(width as int, height as int);
            vstd::arithmetic::div_mod::lemma_div_multiples_vanish(width as int, height as int);
            assert(width * height == height * width) by (nonlinear_arith);
        }
        let capacity: u64 = (width as u64) * (height as u64);
        RectangleIndexer {
            height: height as i32,
            capacity: capacity as i32,
            orientation,
        }
    }

    pub fn capacity(&self) -> (cap: usize)
        requires
            self.wf(),
        ensures
            cap == self.capacity,
    {
        self.capacity as usize
    }

    /// The slot of a coordinate, or nothing where the linear index leaves
    /// the interval `[0, capacity]` that the linear formula lets through.
    /// Membership in the rectangle guarantees a slot below the capacity;
    /// the test alone does not establish membership.
    pub fn try_index(&self, coords: HexCoord) -> (result: Option<usize>)
        requires
            self.wf(),
        ensures
            result matches Some(i) ==> i == rect_lin(coords, self.orientation, self.height as int),
            result is Some <==> 0 <= rect_lin(coords, self.orientation, self.height as int)
                <= self.capacity,
            in_rectangle(coords, self.orientation, self.spec_width(), self.height as int)
                ==> result == Some(
                rect_lin(coords, self.orientation, self.height as int) as usize,
            ) && rect_lin(coords, self.orientation, self.height as int) < self.capacity,
    {
        let row: i64 = match self.orientation {
            HexOrientation::Flat => coords.r() as i64 + div2_trunc_exec(coords.q()),
            HexOrientation::Pointy => coords.r() as i64,
        };
        let column: i64 = match self.orientation {
            HexOrientation::Flat => coords.q() as i64,
            HexOrientation::Pointy => coords.q() as i64 + div2_trunc_exec(coords.r()),
        };
        let height: i64 = self.height as i64;
        proof {
            assert(-0x7000000000000000 <= column * height <= 0x7000000000000000)
                by (nonlinear_arith)
                requires
                    -0xc0000000 <= column <= 0xc0000000,
                    0 < height <= 0x80000000,
            ;
            if in_rectangle(coords, self.orientation, self.spec_width(), self.height as int) {
                self.wf_facts();
                lemma_mul_inequality(
                    rect_col(coords, self.orientation),
                    self.spec_width() - 1,
                    self.height as int,
                );
                lemma_mul_nonnegative(rect_col(coords, self.orientation), self.height as int);
                assert((self.spec_width() - 1) * self.height == self.spec_width() * self.height
                    - self.height) by (nonlinear_arith);
                lemma_fundamental_div_mod(self.capacity as int, self.height as int);
            }
        }
        let i: i64 = column * height + row;
        if i > self.capacity as i64 {
            None
        } else if i < 0 {
            None
        } else {
            Some(i as usize)
        }
    }

    /// The slot of a coordinate; the caller must have established that the
    /// linear index is in range, most simply by rectangle membership.
    pub fn index(&self, coords: HexCoord) -> (slot: usize)
        requires
            self.wf(),
            0 <= rect_lin(coords, self.orientation, self.height as int) <= self.capacity,
        ensures
            slot == rect_lin(coords, self.orientation, self.height as int),
    {
        match self.try_index(coords) {
            Some(slot) => slot,
            None => {
                proof {
                    assert(false);
                }
                0
            },
        }
    }

    /// The coordinate stored at a slot of the rectangle.
    pub fn coords(&self, index: usize) -> (c: HexCoord)
        requires
            self.wf(),
            index < self.capacity,
        ensures
            c == rect_coords(self.orientation, self.height as int, index as int),
            in_rectangle(c, self.orientation, self.spec_width(), self.height as int),
            rect_lin(c, self.orientation, self.height as int) == index,
    {
        proof {
            self.wf_facts();
            lemma_rect_index_of_coords(
                self.orientation,
                self.spec_width(),
                self.height as int,
                index as int,
            );
        }
        let i: i64 = index as i64;
        let height: i64 = self.height as i64;
        let column: i64 = i / height;
        let row: i64 = i % height;
        proof {
            lemma_mod_division_less_than_divisor(i as int, height as int);
            vstd::arithmetic::div_mod::lemma_div_pos_is_pos(i as int, height as int);
            lemma_rect_col_bound(self.spec_width(), self.height as int, index as int);
        }
        match self.orientation {
            HexOrientation::Flat => {
                let start_offset: i64 = column / 2;
                HexCoord {
                    q: column as i32,
                    r: (row - start_offset) as i32,
                    s: (-column + start_offset - row) as i32,
                }
            },
            HexOrientation::Pointy => {
                let start_offset: i64 = row / 2;
                HexCoord {
                    q: (column - start_offset) as i32,
                    r: row as i32,
                    s: (-column + start_offset - row) as i32,
                }
            },
        }
    }

    /// Converts a display offset coordinate (odd rows or columns shifted,
    /// depending on the orientation) to the axial coordinate it addresses.
    /// Independent of this rectangle's own numbering.
    pub fn offset_coord(&self, col: i32, row: i32) -> (c: HexCoord)
        requires
            offset_to_axial_fits(self.orientation, col as int, row as int),
        ensures
            c == offset_to_axial(self.orientation, col as int, row as int),
            c.sum_zero(),
    {
        match self.orientation {
            HexOrientation::Flat => {
                let half: i64 = div2_floor_exec(col);
                HexCoord {
                    q: col,
                    r: (row as i64 - half) as i32,
                    s: (-(col as i64) + half - row as i64) as i32,
                }
            },
            HexOrientation::Pointy => {
                let half: i64 = div2_floor_exec(row);
                HexCoord {
                    q: (col as i64 - half) as i32,
                    r: row,
                    s: (-(col as i64) + half - row as i64) as i32,
                }
            },
        }
    }
}

/// Machine division of an `i32` by two: rounds towards zero.
fn div2_trunc_exec(x: i32) -> (d: i64)
    ensures
        d == div2_trunc(x as int),
        -0x40000000 <= d <= 0x40000000,
{
    if x >= 0 {
        let d: i64 = (x as i64) / 2;
        proof {
            lemma_fundamental_div_mod(x as int, 2);
            lemma_mod_division_less_than_divisor(x as int, 2);
        }
        d
    } else {
        let n: i64 = -(x as i64);
        let d: i64 = n / 2;
        proof {
            lemma_fundamental_div_mod(n as int, 2);
            lemma_mod_division_less_than_divisor(n as int, 2);
        }
        -d
    }
}

/// Floor division of an `i32` by two: the value of `(x - (x & 1)) / 2`.
fn div2_floor_exec(x: i32) -> (d: i64)
    ensures
        d == x as int / 2,
{
    if x >= 0 {
        (x as i64) / 2
    } else {
        let n: i64 = -(x as i64) + 1;
        let q: i64 = n / 2;
        proof {
            lemma_fundamental_div_mod(n as int, 2);
            lemma_mod_division_less_than_divisor(n as int, 2);
            lemma_fundamental_div_mod_converse(x as int, 2, -q as int, 1 - (n as int % 2));
        }
        -q
    }
}

/// A column within the width keeps every slot of the column within the
/// capacity.
proof fn lemma_rect_col_bound(width: int, height: int, i: int)
    requires
        1 <= height,
        1 <= width,
        0 <= i < width * height,
    ensures
        0 <= i / height < width,
        0 <= i % height < height,
{
    lemma_fundamental_div_mod(i, height);
    lemma_mod_division_less_than_divisor(i, height);
    vstd::arithmetic::div_mod::lemma_div_pos_is_pos(i, height);
    if i / height >= width {
        lemma_mul_inequality(width, i / height, height);
        assert(width * height <= (i / height) * height);
        assert((i / height) * height == height * (i / height)) by (nonlinear_arith);
    }
}

/// One direction of the rectangle bijection: taking the slot of the
/// coordinate of any slot gives that slot back, and the coordinate lies in
/// the rectangle.
pub proof fn lemma_rect_index_of_coords(o: HexOrientation, width: int, height: int, i: int)
    requires
        1 <= height,
        1 <= width,
        0 <= i < width * height,
        width * height <= 0x7fffffff,
    ensures
        in_rectangle(rect_coords(o, height, i), o, width, height),
        rect_lin(rect_coords(o, height, i), o, height) == i,
{
    let col = i / height;
    let row = i % height;
    let c = rect_coords(o, height, i);
    lemma_rect_col_bound(width, height, i);
    lemma_fundamental_div_mod(i, height);
    lemma_rect_component_bounds(width, height, i);
    if o is Flat {
        assert(c.q == col && c.r == row - col / 2 && c.s == -col + col / 2 - row);
        assert(div2_trunc(c.q as int) == col / 2);
        assert(rect_col(c, o) == col && rect_row(c, o) == row);
        assert(rect_lin(c, o, height) == col * height + row);
        assert(col * height == height * col) by (nonlinear_arith);
    } else {
        assert(c.q == col - row / 2 && c.r == row && c.s == -col + row / 2 - row);
        assert(div2_trunc(c.r as int) == row / 2);
        assert(rect_col(c, o) == col && rect_row(c, o) == row);
        assert(col * height == height * col) by (nonlinear_arith);
    }
}

/// The other direction of the rectangle bijection: the inverse formulas
/// recover every in-rectangle coordinate from its slot.
pub proof fn lemma_rect_coords_of_index(c: HexCoord, o: HexOrientation, width: int, height: int)
    requires
        1 <= height,
        1 <= width,
        width * height <= 0x7fffffff,
        in_rectangle(c, o, width, height),
    ensures
        0 <= rect_lin(c, o, height) < width * height,
        rect_coords(o, height, rect_lin(c, o, height)) == c,
{
    let col = rect_col(c, o);
    let row = rect_row(c, o);
    let lin = rect_lin(c, o, height);
    lemma_mul_nonnegative(col, height);
    lemma_mul_inequality(col, width - 1, height);
    assert((width - 1) * height == width * height - height) by (nonlinear_arith);
    lemma_fundamental_div_mod_converse(lin, height, col, row);
    assert(lin / height == col && lin % height == row);
    if o is Flat {
        assert(c.q == col);
        assert(div2_trunc(c.q as int) == col / 2);
        assert(row - col / 2 == c.r);
        assert(-col + col / 2 - row == c.s);
    } else {
        assert(c.r == row);
        assert(div2_trunc(c.r as int) == row / 2);
        assert(col - row / 2 == c.q);
        assert(-col + row / 2 - row == c.s);
    }
}

/// Every component of a slot's coordinate stays within the capacity, so the
/// machine casts are exact.
proof fn lemma_rect_component_bounds(width: int, height: int, i: int)
    requires
        1 <= height,
        1 <= width,
        0 <= i < width * height,
        width * height <= 0x7fffffff,
    ensures
        ({
            let col = i / height;
            let row = i % height;
            &&& 0 <= col < width
            &&& 0 <= row < height
            &&& 0 <= col / 2 <= col
            &&& 0 <= row / 2 <= row
            &&& col - col / 2 + row <= width * height
            &&& col + row - row / 2 <= width * height
        }),
{
    let col = i / height;
    let row = i % height;
    lemma_rect_col_bound(width, height, i);
    lemma_fundamental_div_mod(col, 2);
    lemma_mod_division_less_than_divisor(col, 2);
    lemma_fundamental_div_mod(row, 2);
    lemma_mod_division_less_than_divisor(row, 2);
    vstd::arithmetic::div_mod::lemma_div_pos_is_pos(col, 2);
    vstd::arithmetic::div_mod::lemma_div_pos_is_pos(row, 2);
    assert(col - col / 2 + row <= width * height) by (nonlinear_arith)
        requires
            0 <= col <= width - 1,
            0 <= row <= height - 1,
            col == 2 * (col / 2) + col % 2,
            0 <= col % 2 < 2,
            1 <= height,
            1 <= width,
    ;
    assert(col + row - row / 2 <= width * height) by (nonlinear_arith)
        requires
            0 <= col <= width - 1,
            0 <= row <= height - 1,
            row == 2 * (row / 2) + row % 2,
            0 <= row % 2 < 2,
            1 <= height,
            1 <= width,
    ;
}

} // verus!
