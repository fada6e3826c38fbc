//! The glyph framebuffer and the triangle rasterizer that fills it.
use vstd::prelude::*;

use crate::math::triangle::{ceil_cell_of, floor_cell_of, max_of, min_of, Triangle2D};
use crate::math::vector::CELL_LIMIT;

verus! {

/// The glyph every cell holds after construction.
pub const BLANK: char = ' ';

/// The glyph of cell `(x, y)` in a row-major grid of `width` columns.
pub open spec fn grid_cell(cells: Seq<char>, width: int, x: int, y: int) -> char {
    cells[y * width + x]
}

/// A row-major grid of glyphs, `width` columns by `height` rows.
pub struct Engine {
    pub width: usize,
    pub height: usize,
    pub pixel_buffer_size: usize,
    pub pixel_buffer: Vec<char>,
}

proof fn lemma_cell_index(width: int, height: int, x: int, y: int)
    requires
        0 <= x < width,
        0 <= y < height,
    ensures
        0 <= y * width + x < width * height,
{
    assert(0 <= y * width + x < width * height) by (nonlinear_arith)
        requires 0 <= x < width, 0 <= y < height;
}

proof fn lemma_cell_index_unique(width: int, x1: int, y1: int, x2: int, y2: int)
    requires
        0 <= x1 < width,
        0 <= x2 < width,
        0 <= y1,
        0 <= y2,
        y1 * width + x1 == y2 * width + x2,
    ensures
        x1 == x2,
        y1 == y2,
{
    if y1 < y2 {
        assert(y1 * width + width <= y2 * width) by (nonlinear_arith)
            requires y1 < y2, 0 < width;
    } else if y2 < y1 {
        assert(y2 * width + width <= y1 * width) by (nonlinear_arith)
            requires y2 < y1, 0 < width;
    }
}

/// The cells `[start, end)` of a row or column of `size` cells that lie
/// between cells `first` and `last`, both included.
fn cell_span(first: i64, last: i64, size: usize) -> (r: (i64, i64))
    requires
        -CELL_LIMIT <= first,
        last <= CELL_LIMIT,
    ensures
        r.0 == if first < 0 { 0 } else { first as int },
        r.1 == if last + 1 < 0 { 0 } else if size < last + 1 { size as int } else { last + 1 },
{
    let start: i64 = if first < 0 { 0 } else { first };
    let end: i64 = if last + 1 < 0 {
        0
    } else if (size as u128) < ((last + 1) as u128) {
        size as i64
    } else {
        last + 1
    };
    (start, end)
}

impl Engine {
    /// The grid's shape holds together: at least one cell each way, and one
    /// glyph per cell.
    pub open spec fn wf(&self) -> bool {
        &&& self.width >= 1
        &&& self.height >= 1
        &&& self.pixel_buffer_size == self.width * self.height
        &&& self.pixel_buffer@.len() == self.width * self.height
    }

    /// The glyph at column `x`, row `y`.
    pub open spec fn cell(&self, x: int, y: int) -> char {
        grid_cell(self.pixel_buffer@, self.width as int, x, y)
    }

    /// A grid of `width` by `height` blank cells.
    pub fn new(width: usize, height: usize) -> (e: Engine)
        requires
            width >= 1,
            height >= 1,
            width * height <= usize::MAX,
        ensures
            e.wf(),
            e.width == width,
            e.height == height,
            forall|i: int| 0 <= i < e.pixel_buffer@.len() ==> e.pixel_buffer@[i] == BLANK,
    {
        let size = width * height;
        let mut pixel_buffer: Vec<char> = Vec::with_capacity(size);
        let mut i: usize = 0;
        while i < size
            invariant
                i <= size,
                pixel_buffer@.len() == i,
                forall|k: int| 0 <= k < i ==> pixel_buffer@[k] == BLANK,
            decreases size - i,
        {
            pixel_buffer.push(BLANK);
            i += 1;
        }
        Engine { width, height, pixel_buffer_size: size, pixel_buffer }
    }

    /// Overwrites every cell with `c`.
    pub fn clear(&mut self, c: char)
        requires
            old(self).wf(),
        ensures
            final(self).wf(),
            final(self).width == old(self).width,
            final(self).height == old(self).height,
            forall|i: int| 0 <= i < final(self).pixel_buffer@.len() ==> final(self).pixel_buffer@[i] == c,
    {
        let mut idx: usize = 0;
        while idx < self.pixel_buffer_size
            invariant
                self.wf(),
                self.width == old(self).width,
                self.height == old(self).height,
                idx <= self.pixel_buffer_size,
                forall|i: int| 0 <= i < idx ==> self.pixel_buffer@[i] == c,
            decreases self.pixel_buffer_size - idx,
        {
            self.pixel_buffer[idx] = c;
            idx += 1;
        }
    }

    /// Writes `c` into cell `(x, y)`; a cell outside the grid is ignored.
    pub fn put_pixel(&mut self, x: i64, y: i64, c: char)
        requires
            old(self).wf(),
        ensures
            final(self).wf(),
            final(self).width == old(self).width,
            final(self).height == old(self).height,
            forall|px: int, py: int|
                0 <= px < final(self).width && 0 <= py < final(self).height ==> #[trigger] final(self).cell(px, py)
                    == if px == x && py == y {
                    c
                } else {
                    old(self).cell(px, py)
                },
    {
        if 0 <= x && (x as u64) < (self.width as u64) && 0 <= y && (y as u64) < (self.height as u64) {
            let ghost before = self.pixel_buffer@;
            proof {
                lemma_cell_index(self.width as int, self.height as int, x as int, y as int);
            }
            let index = (y as usize) * self.width + (x as usize);
            self.pixel_buffer[index] = c;
            assert forall|px: int, py: int|
                0 <= px < self.width && 0 <= py < self.height implies #[trigger] self.cell(px, py)
                    == if px == x && py == y {
                    c
                } else {
                    grid_cell(before, self.width as int, px, py)
                } by {
                lemma_cell_index(self.width as int, self.height as int, px, py);
                if py * self.width + px == index {
                    lemma_cell_index_unique(self.width as int, px, py, x as int, y as int);
                }
            }
        }
    }
    /// Fills with `c` every cell of the grid that the triangle covers; the
    /// other cells keep their glyph.
    pub fn put_triangle(&mut self, tri: &Triangle2D, c: char)
        requires
            old(self).wf(),
            tri.in_range(),
        ensures
            final(self).wf(),
            final(self).width == old(self).width,
            final(self).height == old(self).height,
            forall|px: int, py: int|
                0 <= px < final(self).width && 0 <= py < final(self).height ==> #[trigger] final(self).cell(px, py)
                    == if tri.covers(px, py) {
                    c
                } else {
                    old(self).cell(px, py)
                },
    {
        let (a, b, d) = (tri.v1, tri.v2, tri.v3);
        let (x_start, x_end) = cell_span(
            floor_cell_of(min_of(a.x, b.x, d.x)),
            ceil_cell_of(max_of(a.x, b.x, d.x)),
            self.width,
        );
        let (y_start, y_end) = cell_span(
            floor_cell_of(min_of(a.y, b.y, d.y)),
            ceil_cell_of(max_of(a.y, b.y, d.y)),
            self.height,
        );
        let ghost before = self.pixel_buffer@;
        let ghost w = self.width as int;
        let ghost h = self.height as int;
        assert forall|px: int, py: int|
            0 <= px < w && 0 <= py < h && #[trigger] tri.covers(px, py) implies x_start <= px < x_end
            && y_start <= py < y_end by {}
        let mut y: i64 = y_start;
        while y < y_end
            invariant
                self.wf(),
                self.width == w,
                self.height == h,
                y_start <= y,
                y <= y_end || y == y_start,
                0 <= y_start,
                0 <= x_start,
                y_end <= CELL_LIMIT + 1,
                x_end <= CELL_LIMIT + 1,
                tri.in_range(),
                forall|px: int, py: int|
                    0 <= px < w && 0 <= py < h && #[trigger] tri.covers(px, py) ==> x_start <= px < x_end
                        && y_start <= py < y_end,
                forall|px: int, py: int|
                    0 <= px < w && 0 <= py < h ==> #[trigger] self.cell(px, py) == if tri.covers(px, py)
                        && py < y {
                        c
                    } else {
                        grid_cell(before, w, px, py)
                    },
            decreases y_end - y,
        {
            let mut x: i64 = x_start;
            while x < x_end
                invariant
                    self.wf(),
                    self.width == w,
                    self.height == h,
                    y_start <= y < y_end,
                    x_start <= x,
                    x <= x_end || x == x_start,
                    0 <= y_start,
                    0 <= x_start,
                    y_end <= CELL_LIMIT + 1,
                    x_end <= CELL_LIMIT + 1,
                    tri.in_range(),
                    forall|px: int, py: int|
                        0 <= px < w && 0 <= py < h && #[trigger] tri.covers(px, py) ==> x_start <= px
                            < x_end && y_start <= py < y_end,
                    forall|px: int, py: int|
                        0 <= px < w && 0 <= py < h ==> #[trigger] self.cell(px, py) == if tri.covers(
                            px,
                            py,
                        ) && (py < y || (py == y && px < x)) {
                            c
                        } else {
                            grid_cell(before, w, px, py)
                        },
                decreases x_end - x,
            {
                if tri.covers_cell(x, y) {
                    self.put_pixel(x, y, c);
                }
                x += 1;
            }
            y += 1;
        }
    }
}

} // verus!
