//! Screen-space triangles and the edge-function test that decides which
//! cells they cover.
use vstd::arithmetic::div_mod::{lemma_fundamental_div_mod, lemma_fundamental_div_mod_converse};
use vstd::prelude::*;

use crate::math::vector::{Vec2, CELL_LIMIT, COORD_LIMIT, SUBPIXEL};

verus! {

/// Twice the signed area of the triangle `(p, a, b)`: positive when `p`, `a`,
/// `b` turn one way, negative when they turn the other, zero when collinear.
pub open spec fn edge(px: int, py: int, a: Vec2, b: Vec2) -> int {
    (a.x - px) * (b.y - py) - (a.y - py) * (b.x - px)
}

pub open spec fn min3(a: int, b: int, c: int) -> int {
    if a <= b && a <= c {
        a
    } else if b <= c {
        b
    } else {
        c
    }
}

pub open spec fn max3(a: int, b: int, c: int) -> int {
    if a >= b && a >= c {
        a
    } else if b >= c {
        b
    } else {
        c
    }
}

/// A triangle of the screen plane, in sub-cell units. Its vertices may come
/// in either winding.
#[derive(Debug, Copy, Clone, PartialEq, Eq, Structural)]
pub struct Triangle2D {
    pub v1: Vec2,
    pub v2: Vec2,
    pub v3: Vec2,
}

impl Triangle2D {
    pub open spec fn new_spec(v1: Vec2, v2: Vec2, v3: Vec2) -> Triangle2D {
        Triangle2D { v1, v2, v3 }
    }

    #[verifier::when_used_as_spec(new_spec)]
    pub fn new(v1: Vec2, v2: Vec2, v3: Vec2) -> (t: Triangle2D)
        ensures
            t == Triangle2D::new_spec(v1, v2, v3),
    {
        Triangle2D { v1, v2, v3 }
    }

    pub fn update_v1(&mut self, x: i64, y: i64)
        ensures
            *final(self) == (Triangle2D { v1: Vec2 { x, y }, ..*old(self) }),
    {
        self.v1.x = x;
        self.v1.y = y;
    }

    pub fn update_v2(&mut self, x: i64, y: i64)
        ensures
            *final(self) == (Triangle2D { v2: Vec2 { x, y }, ..*old(self) }),
    {
        self.v2.x = x;
        self.v2.y = y;
    }

    pub fn update_v3(&mut self, x: i64, y: i64)
        ensures
            *final(self) == (Triangle2D { v3: Vec2 { x, y }, ..*old(self) }),
    {
        self.v3.x = x;
        self.v3.y = y;
    }

    /// Every vertex lies within `COORD_LIMIT`.
    pub open spec fn in_range(self) -> bool {
        self.v1.in_range() && self.v2.in_range() && self.v3.in_range()
    }

    pub open spec fn min_x(self) -> int {
        min3(self.v1.x as int, self.v2.x as int, self.v3.x as int)
    }

    pub open spec fn max_x(self) -> int {
        max3(self.v1.x as int, self.v2.x as int, self.v3.x as int)
    }

    pub open spec fn min_y(self) -> int {
        min3(self.v1.y as int, self.v2.y as int, self.v3.y as int)
    }

    pub open spec fn max_y(self) -> int {
        max3(self.v1.y as int, self.v2.y as int, self.v3.y as int)
    }

    /// Cell `(x, y)` lies in the triangle's box of cells: from the cell
    /// holding the least coordinate (rounded down) to the cell at the
    /// greatest coordinate rounded up, on each axis.
    pub open spec fn in_cell_box(self, x: int, y: int) -> bool {
        floor_cell(self.min_x()) <= x <= ceil_cell(self.max_x()) && floor_cell(self.min_y()) <= y
            <= ceil_cell(self.max_y())
    }

    /// The three edge values of the point have one sign, zero counting as
    /// either: the point is inside or on the border, whatever the winding.
    pub open spec fn edge_test(self, px: int, py: int) -> bool {
        let w1 = edge(px, py, self.v3, self.v1);
        let w2 = edge(px, py, self.v1, self.v2);
        let w3 = edge(px, py, self.v2, self.v3);
        (w1 >= 0 && w2 >= 0 && w3 >= 0) || (w1 <= 0 && w2 <= 0 && w3 <= 0)
    }

    /// Cell `(x, y)` is filled when the triangle is drawn: it lies in the
    /// box of cells and its corner passes the edge test. A triangle without
    /// area is drawn too: the cells of its box that lie on its line.
    pub open spec fn covers(self, x: int, y: int) -> bool {
        self.in_cell_box(x, y) && self.edge_test(x * SUBPIXEL, y * SUBPIXEL)
    }

    /// Whether cell `(x, y)` is filled when the triangle is drawn.
    pub fn covers_cell(&self, x: i64, y: i64) -> (r: bool)
        requires
            self.in_range(),
            -CELL_LIMIT <= x <= CELL_LIMIT,
            -CELL_LIMIT <= y <= CELL_LIMIT,
        ensures
            r == self.covers(x as int, y as int),
    {
        let (a, b, c) = (self.v1, self.v2, self.v3);
        let in_box = floor_cell_of(min_of(a.x, b.x, c.x)) <= x && x <= ceil_cell_of(max_of(a.x, b.x, c.x))
            && floor_cell_of(min_of(a.y, b.y, c.y)) <= y && y <= ceil_cell_of(max_of(a.y, b.y, c.y));
        if !in_box {
            return false;
        }
        let px = x as i128 * SUBPIXEL as i128;
        let py = y as i128 * SUBPIXEL as i128;
        let w1 = edge_value(px, py, c, a);
        let w2 = edge_value(px, py, a, b);
        let w3 = edge_value(px, py, b, c);
        (w1 >= 0 && w2 >= 0 && w3 >= 0) || (w1 <= 0 && w2 <= 0 && w3 <= 0)
    }
}

/// The cell holding sub-cell coordinate `c`: `c / SUBPIXEL` rounded down.
pub open spec fn floor_cell(c: int) -> int {
    c / (SUBPIXEL as int)
}

/// `c / SUBPIXEL` rounded up.
pub open spec fn ceil_cell(c: int) -> int {
    -((-c) / (SUBPIXEL as int))
}

pub(crate) fn floor_cell_of(c: i64) -> (r: i64)
    requires
        -COORD_LIMIT <= c <= COORD_LIMIT,
    ensures
        r == floor_cell(c as int),
        -CELL_LIMIT <= r <= CELL_LIMIT,
{
    let shifted: i64 = c + COORD_LIMIT;
    let q: i64 = shifted / SUBPIXEL;
    assert(q * SUBPIXEL <= shifted < (q + 1) * SUBPIXEL) by (nonlinear_arith)
        requires q == shifted / SUBPIXEL, shifted >= 0, SUBPIXEL == 256;
    assert(q <= 2 * CELL_LIMIT) by (nonlinear_arith)
        requires q == shifted / SUBPIXEL, 0 <= shifted <= 2 * COORD_LIMIT, SUBPIXEL == 256,
            COORD_LIMIT == CELL_LIMIT * 256;
    let r = q - CELL_LIMIT;
    proof {
        lemma_fundamental_div_mod_converse(c as int, SUBPIXEL as int, r as int, c - r * SUBPIXEL);
    }
    r
}

pub(crate) fn ceil_cell_of(c: i64) -> (r: i64)
    requires
        -COORD_LIMIT <= c <= COORD_LIMIT,
    ensures
        r == ceil_cell(c as int),
        -CELL_LIMIT <= r <= CELL_LIMIT,
{
    -floor_cell_of(-c)
}

pub(crate) fn min_of(a: i64, b: i64, c: i64) -> (r: i64)
    ensures
        r == min3(a as int, b as int, c as int),
{
    if a <= b && a <= c {
        a
    } else if b <= c {
        b
    } else {
        c
    }
}

pub(crate) fn max_of(a: i64, b: i64, c: i64) -> (r: i64)
    ensures
        r == max3(a as int, b as int, c as int),
{
    if a >= b && a >= c {
        a
    } else if b >= c {
        b
    } else {
        c
    }
}

/// The edge value of `edge`, computed exactly.
fn edge_value(px: i128, py: i128, a: Vec2, b: Vec2) -> (r: i128)
    requires
        a.in_range(),
        b.in_range(),
        -COORD_LIMIT <= px <= COORD_LIMIT,
        -COORD_LIMIT <= py <= COORD_LIMIT,
    ensures
        r == edge(px as int, py as int, a, b),
{
    let dax = a.x as i128 - px;
    let dby = b.y as i128 - py;
    let day = a.y as i128 - py;
    let dbx = b.x as i128 - px;
    let bound: i128 = 2199023255552;
    assert(-bound <= dax <= bound && -bound <= dby <= bound);
    assert(-bound <= day <= bound && -bound <= dbx <= bound);
    assert(-bound * bound <= dax * dby <= bound * bound) by (nonlinear_arith)
        requires -bound <= dax <= bound, -bound <= dby <= bound, bound == 2199023255552;
    assert(-bound * bound <= day * dbx <= bound * bound) by (nonlinear_arith)
        requires -bound <= day <= bound, -bound <= dbx <= bound, bound == 2199023255552;
    dax * dby - day * dbx
}

} // verus!

verus! {

/// `a * k` has the sign of `a` when `k` is positive.
proof fn lemma_sign_of_product(a: int, k: int)
    requires
        k > 0,
    ensures
        a * k >= 0 ==> a >= 0,
        a * k <= 0 ==> a <= 0,
        a >= 0 ==> a * k >= 0,
        a <= 0 ==> a * k <= 0,
{
    if a > 0 {
        assert(a * k > 0) by (nonlinear_arith)
            requires a > 0, k > 0;
    } else if a < 0 {
        assert(a * k < 0) by (nonlinear_arith)
            requires a < 0, k > 0;
    }
}

/// Two triangles that split an axis-aligned rectangle along its diagonal
/// leave no seam: between them they cover exactly the cells whose corner lies
/// in the rectangle, borders and the shared diagonal included.
pub proof fn lemma_split_rectangle_no_seam(x0: i64, y0: i64, x1: i64, y1: i64, x: int, y: int)
    requires
        x0 < x1,
        y0 < y1,
    ensures
        Triangle2D::new_spec(Vec2 { x: x0, y: y0 }, Vec2 { x: x1, y: y0 }, Vec2 { x: x1, y: y1 }).covers(x, y)
            || Triangle2D::new_spec(Vec2 { x: x0, y: y0 }, Vec2 { x: x1, y: y1 }, Vec2 { x: x0, y: y1 }).covers(x, y)
            <==> (x0 <= x * SUBPIXEL <= x1 && y0 <= y * SUBPIXEL <= y1),
{
    let a = Vec2 { x: x0, y: y0 };
    let b = Vec2 { x: x1, y: y0 };
    let c = Vec2 { x: x1, y: y1 };
    let d = Vec2 { x: x0, y: y1 };
    let t1 = Triangle2D::new_spec(a, b, c);
    let t2 = Triangle2D::new_spec(a, c, d);
    let px = x * SUBPIXEL;
    let py = y * SUBPIXEL;
    let w = x1 - x0;
    let h = y1 - y0;
    let u = px - x0;
    let v = py - y0;
    assert(edge(px, py, c, a) == h * u - w * v) by (nonlinear_arith)
        requires c.x == x0 + w, c.y == y0 + h, a.x == x0, a.y == y0, u == px - x0, v == py - y0;
    assert(edge(px, py, a, b) == v * w) by (nonlinear_arith)
        requires a.x == x0, a.y == y0, b.x == x0 + w, b.y == y0, v == py - y0;
    assert(edge(px, py, b, c) == (w - u) * h) by (nonlinear_arith)
        requires b.x == x0 + w, b.y == y0, c.x == x0 + w, c.y == y0 + h, u == px - x0;
    assert(edge(px, py, d, a) == u * h) by (nonlinear_arith)
        requires d.x == x0, d.y == y0 + h, a.x == x0, a.y == y0, u == px - x0;
    assert(edge(px, py, a, c) == w * v - h * u) by (nonlinear_arith)
        requires a.x == x0, a.y == y0, c.x == x0 + w, c.y == y0 + h, u == px - x0, v == py - y0;
    assert(edge(px, py, c, d) == (h - v) * w) by (nonlinear_arith)
        requires c.x == x0 + w, c.y == y0 + h, d.x == x0, d.y == y0 + h, v == py - y0;
    lemma_sign_of_product(v, w);
    lemma_sign_of_product(w - u, h);
    lemma_sign_of_product(u, h);
    lemma_sign_of_product(h - v, w);
    assert(h * u - w * v == (u - w) * h + (h - v) * w) by (nonlinear_arith);
    lemma_sign_of_product(u - w, h);
    if t1.covers(x, y) || t2.covers(x, y) {
        assert(0 <= u <= w && 0 <= v <= h);
    }
    if 0 <= u <= w && 0 <= v <= h {
        let sp = SUBPIXEL as int;
        let (fx0, fy0, nx1, ny1) = (x0 as int, y0 as int, -(x1 as int), -(y1 as int));
        lemma_fundamental_div_mod(fx0, sp);
        lemma_fundamental_div_mod(fy0, sp);
        lemma_fundamental_div_mod(nx1, sp);
        lemma_fundamental_div_mod(ny1, sp);
        assert(fx0 / sp <= x) by (nonlinear_arith)
            requires fx0 == sp * (fx0 / sp) + fx0 % sp, fx0 % sp >= 0, fx0 <= x * sp, sp == 256;
        assert(fy0 / sp <= y) by (nonlinear_arith)
            requires fy0 == sp * (fy0 / sp) + fy0 % sp, fy0 % sp >= 0, fy0 <= y * sp, sp == 256;
        assert(nx1 / sp <= -x) by (nonlinear_arith)
            requires nx1 == sp * (nx1 / sp) + nx1 % sp, nx1 % sp >= 0, -nx1 >= x * sp, sp == 256;
        assert(ny1 / sp <= -y) by (nonlinear_arith)
            requires ny1 == sp * (ny1 / sp) + ny1 % sp, ny1 % sp >= 0, -ny1 >= y * sp, sp == 256;
        assert(t1.in_cell_box(x, y) && t2.in_cell_box(x, y));
        if h * u - w * v >= 0 {
            assert(t1.covers(x, y));
        } else {
            assert(t2.covers(x, y));
        }
    }
}

} // verus!
