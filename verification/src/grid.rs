//! The grid: a flat, row-major buffer of binary cells with a boundary
//! policy, and the one-generation transition rule.

use vstd::prelude::*;
use vstd::arithmetic::div_mod::{
    lemma_div_pos_is_pos,
    lemma_fundamental_div_mod_converse,
    lemma_mod_bound,
    lemma_multiply_divide_lt,
};
use crate::error::LifeError;

verus! {

/// The smallest height and width a grid may have.
pub const MIN_SIDE: i32 = 4;

/// State of a dead cell.
pub const DEAD: u8 = 0;

/// State of a live cell.
pub const ALIVE: u8 = 1;

/// The mathematical content of a [`Grid`]: its shape, its boundary policy
/// and the cell states in row-major order.
pub struct GridView {
    pub cells: Seq<u8>,
    pub height: int,
    pub width: int,
    pub wrap: bool,
}

impl GridView {
    /// Both sides reach the minimum, the buffer holds one binary state per
    /// cell, and every cell index fits the coordinate type.
    pub open spec fn wf(self) -> bool {
        &&& MIN_SIDE <= self.height
        &&& MIN_SIDE <= self.width
        &&& self.height * self.width <= i32::MAX
        &&& self.cells.len() == self.height * self.width
        &&& forall|i: int| 0 <= i < self.cells.len() ==> #[trigger] self.cells[i] <= ALIVE
    }

    /// Whether the two grids agree in height, width and boundary policy.
    pub open spec fn same_shape(self, other: GridView) -> bool {
        &&& self.height == other.height
        &&& self.width == other.width
        &&& self.wrap == other.wrap
    }

    /// Whether `(x, y)` names a cell without any folding.
    pub open spec fn in_range(self, x: int, y: int) -> bool {
        0 <= x < self.width && 0 <= y < self.height
    }

    /// Position of the cell `(x, y)` in the buffer, both coordinates folded
    /// into range by the Euclidean remainder.
    pub open spec fn index_of(self, x: int, y: int) -> int {
        (y % self.height) * self.width + (x % self.width)
    }

    /// State read at `(x, y)`: dead outside a grid that does not wrap,
    /// the folded cell otherwise.
    pub open spec fn at(self, x: int, y: int) -> u8 {
        if !self.wrap && !self.in_range(x, y) {
            DEAD
        } else {
            self.cells[self.index_of(x, y)]
        }
    }

    /// The grid after a write of `value` at `(x, y)`: unchanged where the
    /// write falls outside a grid that does not wrap, else changed in the
    /// one folded cell.
    pub open spec fn set(self, x: int, y: int, value: u8) -> GridView {
        if !self.wrap && !self.in_range(x, y) {
            self
        } else {
            GridView { cells: self.cells.update(self.index_of(x, y), value), ..self }
        }
    }

    /// Sum of the states read at the eight cells around `(x, y)`; the cell
    /// itself is left out.
    pub open spec fn neighbours(self, x: int, y: int) -> int {
        self.at(x - 1, y - 1) + self.at(x, y - 1) + self.at(x + 1, y - 1)
            + self.at(x - 1, y) + self.at(x + 1, y)
            + self.at(x - 1, y + 1) + self.at(x, y + 1) + self.at(x + 1, y + 1)
    }

    /// State of the cell `(x, y)` one generation on.
    pub open spec fn next_cell(self, x: int, y: int) -> u8 {
        next_state(self.at(x, y), self.neighbours(x, y))
    }

    /// The grid one generation on: every cell follows the rule, read from
    /// this generation alone.
    pub open spec fn next(self) -> GridView {
        GridView {
            cells: Seq::new(
                self.cells.len(),
                |i: int| self.next_cell(i % self.width, i / self.width),
            ),
            ..self
        }
    }

    /// The cell that the pixel `(tx, ty)` of a raster of `h` rows and `w`
    /// columns shows: the nearest one above and to the left when the grid
    /// is stretched over the raster.
    pub open spec fn sample(self, h: int, w: int, tx: int, ty: int) -> u8 {
        self.at(tx * self.width / w, ty * self.height / h)
    }

    /// The grid resampled to `h` rows of `w` pixels, in row-major order.
    pub open spec fn resampled(self, h: int, w: int) -> Seq<u8> {
        Seq::new((h * w) as nat, |i: int| self.sample(h, w, i % w, i / w))
    }

    /// The grid seeded from one outcome per cell, in row-major order: a
    /// cell whose outcome is `true` is dead, every other cell is alive.
    pub open spec fn seeded(self, dead: Seq<bool>) -> GridView {
        GridView {
            cells: Seq::new(self.cells.len(), |i: int| seeded_state(dead[i])),
            ..self
        }
    }
}

/// The rule of the game for one cell in state `cell` with `n` live
/// neighbours: a live cell with neither two nor three of them dies, a dead
/// cell with exactly three comes alive, every other cell keeps its state.
pub open spec fn next_state(cell: u8, n: int) -> u8 {
    if cell == ALIVE && n != 2 && n != 3 {
        DEAD
    } else if cell == DEAD && n == 3 {
        ALIVE
    } else {
        cell
    }
}

/// State given to a cell by its seeding outcome: dead where the draw fell
/// below the probability of being seeded dead, alive otherwise.
pub open spec fn seeded_state(dead: bool) -> u8 {
    if dead {
        DEAD
    } else {
        ALIVE
    }
}

/// A rectangular board of cells, each dead (0) or alive (1).
#[derive(Debug)]
pub struct Grid {
    data: Vec<u8>,
    height: i32,
    width: i32,
    wrap: bool,
}

impl View for Grid {
    type V = GridView;

    closed spec fn view(&self) -> GridView {
        GridView {
            cells: self.data@,
            height: self.height as int,
            width: self.width as int,
            wrap: self.wrap,
        }
    }
}

/// In a grid of `h` rows of `w` cells, the row-major position of an
/// in-range cell lies inside the buffer and determines the cell.
pub proof fn lemma_cell_index(x: int, y: int, w: int, h: int)
    requires
        0 <= x < w,
        0 <= y < h,
    ensures
        0 <= y * w <= y * w + x < h * w,
        (y * w + x) % w == x,
        (y * w + x) / w == y,
{
    assert(0 <= y * w && (y + 1) * w <= h * w) by (nonlinear_arith)
        requires
            0 <= y < h,
            0 < w,
    ;
    assert((y + 1) * w == y * w + w) by (nonlinear_arith);
    lemma_fundamental_div_mod_converse(y * w + x, w, y, x);
}

impl Grid {
    /// The validity of a grid: that of its content.
    pub open spec fn wf(&self) -> bool {
        self@.wf()
    }

    /// An all-dead grid of `h` rows and `w` columns. It is refused when a
    /// side is below [`MIN_SIDE`].
    pub fn new(h: i32, w: i32, wrap: bool) -> (r: Result<Grid, LifeError>)
        requires
            h >= MIN_SIDE && w >= MIN_SIDE ==> h * w <= i32::MAX,
        ensures
            h < MIN_SIDE || w < MIN_SIDE <==> r is Err,
            r is Err ==> r == Err::<Grid, LifeError>(LifeError::InvalidDimensions),
            r is Ok ==> {
                &&& r->Ok_0.wf()
                &&& r->Ok_0@.height == h
                &&& r->Ok_0@.width == w
                &&& r->Ok_0@.wrap == wrap
                &&& r->Ok_0@.cells == Seq::new((h * w) as nat, |i: int| DEAD)
            },
    {
        if h < MIN_SIDE || w < MIN_SIDE {
            return Err(LifeError::InvalidDimensions);
        }
        assert(0 <= h * w) by (nonlinear_arith)
            requires
                0 <= h,
                0 <= w,
        ;
        let n: usize = (h * w) as usize;
        let data: Vec<u8> = vec![DEAD; n];
        assert(data@ =~= Seq::new((h * w) as nat, |i: int| DEAD));
        Ok(Grid { data, height: h, width: w, wrap })
    }

    /// Number of rows.
    pub fn height(&self) -> (h: i32)
        ensures
            h == self@.height,
    {
        self.height
    }

    /// Number of columns.
    pub fn width(&self) -> (w: i32)
        ensures
            w == self@.width,
    {
        self.width
    }

    /// The cell states in row-major order.
    pub fn cells(&self) -> (cells: &Vec<u8>)
        ensures
            cells@ == self@.cells,
    {
        &self.data
    }

    /// Whether coordinates fold around the edges.
    pub fn wraps(&self) -> (wrap: bool)
        ensures
            wrap == self@.wrap,
    {
        self.wrap
    }

    /// Folds a coordinate pair into the grid, each axis by the Euclidean
    /// remainder, so that a negative coordinate lands on the far edge.
    pub fn get_wrapped_pos(&self, x: i32, y: i32) -> (p: (i32, i32))
        requires
            self.wf(),
        ensures
            p.0 == x as int % self@.width,
            p.1 == y as int % self@.height,
            self@.in_range(p.0 as int, p.1 as int),
    {
        proof {
            lemma_mod_bound(x as int, self.width as int);
            lemma_mod_bound(y as int, self.height as int);
        }
        let px: i32 = match x.checked_rem_euclid(self.width) {
            Some(r) => r,
            None => 0,
        };
        let py: i32 = match y.checked_rem_euclid(self.height) {
            Some(r) => r,
            None => 0,
        };
        (px, py)
    }

    /// The state read at `(x, y)` for coordinates of any size.
    fn read(&self, x: i64, y: i64) -> (v: u8)
        requires
            self.wf(),
        ensures
            v == self@.at(x as int, y as int),
            v <= ALIVE,
    {
        let w: i64 = self.width as i64;
        let h: i64 = self.height as i64;
        if !self.wrap && (x < 0 || x >= w || y < 0 || y >= h) {
            return DEAD;
        }
        proof {
            lemma_mod_bound(x as int, w as int);
            lemma_mod_bound(y as int, h as int);
        }
        let cx: i64 = match x.checked_rem_euclid(w) {
            Some(r) => r,
            None => 0,
        };
        let cy: i64 = match y.checked_rem_euclid(h) {
            Some(r) => r,
            None => 0,
        };
        proof {
            lemma_cell_index(cx as int, cy as int, w as int, h as int);
        }
        self.data[(cy * w + cx) as usize]
    }

    /// The state read at `(x, y)`. Outside a grid that does not wrap every
    /// cell reads dead; in one that wraps the coordinates are folded first.
    pub fn at(&self, x: i32, y: i32) -> (v: u8)
        requires
            self.wf(),
        ensures
            v == self@.at(x as int, y as int),
            v <= ALIVE,
            !self@.wrap && (x < 0 || x >= self@.width || y < 0 || y >= self@.height) ==> v
                == DEAD,
    {
        self.read(x as i64, y as i64)
    }

    /// Writes `value` at `(x, y)`. Outside a grid that does not wrap the
    /// write is dropped; in one that wraps the coordinates are folded as
    /// [`Grid::at`] folds them.
    pub fn set(&mut self, x: i32, y: i32, value: u8)
        requires
            old(self).wf(),
            value <= ALIVE,
        ensures
            final(self)@ == old(self)@.set(x as int, y as int, value),
            final(self).wf(),
    {
        if !self.wrap && (x < 0 || x >= self.width || y < 0 || y >= self.height) {
            return ;
        }
        let (cx, cy) = self.get_wrapped_pos(x, y);
        proof {
            lemma_cell_index(cx as int, cy as int, self.width as int, self.height as int);
        }
        let idx: usize = (cy * self.width + cx) as usize;
        self.data[idx] = value;
    }

    /// How many of the eight cells around `(x, y)` are alive.
    pub fn neighbours(&self, x: i32, y: i32) -> (n: i32)
        requires
            self.wf(),
        ensures
            n == self@.neighbours(x as int, y as int),
            0 <= n <= 8,
    {
        let cx: i64 = x as i64;
        let cy: i64 = y as i64;
        let above: i32 = self.read(cx - 1, cy - 1) as i32 + self.read(cx, cy - 1) as i32
            + self.read(cx + 1, cy - 1) as i32;
        let beside: i32 = self.read(cx - 1, cy) as i32 + self.read(cx + 1, cy) as i32;
        let below: i32 = self.read(cx - 1, cy + 1) as i32 + self.read(cx, cy + 1) as i32
            + self.read(cx + 1, cy + 1) as i32;
        above + beside + below
    }

    /// Computes the next generation of this grid into `dst`, which must
    /// have this grid's shape. This grid is only read: every neighbour
    /// count is taken from the generation before the step.
    pub fn step(&self, dst: &mut Grid)
        requires
            self.wf(),
            old(dst).wf(),
            old(dst)@.same_shape(self@),
        ensures
            final(dst)@ == self@.next(),
            final(dst).wf(),
    {
        let mut y: i32 = 0;
        while y < self.height
            invariant
                self.wf(),
                0 <= y <= self.height,
                dst@.same_shape(self@),
                dst.data@.len() == self.data@.len(),
                forall|i: int|
                    0 <= i < y * self.width ==> #[trigger] dst.data@[i] == self@.next_cell(
                        i % self@.width,
                        i / self@.width,
                    ),
            decreases self.height - y,
        {
            let mut x: i32 = 0;
            while x < self.width
                invariant
                    self.wf(),
                    0 <= y < self.height,
                    0 <= x <= self.width,
                    dst@.same_shape(self@),
                    dst.data@.len() == self.data@.len(),
                    forall|i: int|
                        0 <= i < y * self.width + x ==> #[trigger] dst.data@[i]
                            == self@.next_cell(i % self@.width, i / self@.width),
                decreases self.width - x,
            {
                proof {
                    lemma_cell_index(x as int, y as int, self.width as int, self.height as int);
                }
                let n: i32 = self.neighbours(x, y);
                let cell: u8 = self.at(x, y);
                let idx: usize = (y * self.width + x) as usize;
                dst.data[idx] = next_cell_state(cell, n);
                x += 1;
            }
            proof {
                assert((y + 1) * self.width == y * self.width + self.width) by (nonlinear_arith);
            }
            y += 1;
        }
        proof {
            assert(dst.data@ =~= self@.next().cells);
            lemma_next_wf(self@);
        }
    }

    /// The grid as a raster of `h` rows of `w` palette indices, each pixel
    /// taken from the cell that [`GridView::sample`] names.
    pub fn resample(&self, h: u16, w: u16) -> (pixels: Vec<u8>)
        requires
            self.wf(),
            0 < h,
            0 < w,
        ensures
            pixels@ == self@.resampled(h as int, w as int),
    {
        let mut pixels: Vec<u8> = Vec::new();
        let mut ty: u16 = 0;
        while ty < h
            invariant
                self.wf(),
                0 < w,
                0 <= ty <= h,
                pixels@.len() == ty * w,
                forall|i: int|
                    0 <= i < ty * w ==> #[trigger] pixels@[i] == self@.sample(
                        h as int,
                        w as int,
                        i % (w as int),
                        i / (w as int),
                    ),
            decreases h - ty,
        {
            proof {
                lemma_source_in_range(ty as int, h as int, self.height as int);
                assert(ty * self.height <= 0xFFFF * 0x7FFF_FFFF) by (nonlinear_arith)
                    requires
                        0 <= ty <= 0xFFFF,
                        0 <= self.height <= 0x7FFF_FFFF,
                ;
            }
            let sy: i64 = ty as i64 * self.height as i64 / h as i64;
            let mut tx: u16 = 0;
            while tx < w
                invariant
                    self.wf(),
                    0 <= ty < h,
                    0 <= tx <= w,
                    sy == ty * self@.height / (h as int),
                    pixels@.len() == ty * w + tx,
                    forall|i: int|
                        0 <= i < ty * w + tx ==> #[trigger] pixels@[i] == self@.sample(
                            h as int,
                            w as int,
                            i % (w as int),
                            i / (w as int),
                        ),
                decreases w - tx,
            {
                proof {
                    lemma_source_in_range(tx as int, w as int, self.width as int);
                    lemma_cell_index(tx as int, ty as int, w as int, h as int);
                    assert(tx * self.width <= 0xFFFF * 0x7FFF_FFFF) by (nonlinear_arith)
                        requires
                            0 <= tx <= 0xFFFF,
                            0 <= self.width <= 0x7FFF_FFFF,
                    ;
                }
                let sx: i64 = tx as i64 * self.width as i64 / w as i64;
                pixels.push(self.read(sx, sy));
                tx += 1;
            }
            proof {
                assert((ty + 1) * w == ty * w + w) by (nonlinear_arith);
            }
            ty += 1;
        }
        proof {
            assert(pixels@ =~= self@.resampled(h as int, w as int));
        }
        pixels
    }

    /// Seeds every cell from one outcome per cell, in row-major order: a
    /// cell whose outcome is `true` (its draw fell below the probability
    /// of being seeded dead) is dead, every other cell is alive.
    pub fn randomize(&mut self, dead: &Vec<bool>)
        requires
            old(self).wf(),
            dead@.len() == old(self)@.cells.len(),
        ensures
            final(self)@ == old(self)@.seeded(dead@),
            final(self).wf(),
    {
        let n: usize = self.data.len();
        let mut i: usize = 0;
        while i < n
            invariant
                0 <= i <= n,
                n == self.data@.len(),
                n == dead@.len(),
                self.height == old(self).height,
                self.width == old(self).width,
                self.wrap == old(self).wrap,
                forall|k: int| 0 <= k < i ==> #[trigger] self.data@[k] == seeded_state(dead@[k]),
            decreases n - i,
        {
            self.data[i] = if dead[i] {
                DEAD
            } else {
                ALIVE
            };
            i += 1;
        }
        proof {
            assert(self.data@ =~= old(self)@.seeded(dead@).cells);
        }
    }
}

impl Clone for Grid {
    /// An independent copy of the grid.
    fn clone(&self) -> (copy: Grid)
        ensures
            copy@ == self@,
    {
        let data: Vec<u8> = self.data.clone();
        assert(data@ =~= self.data@);
        Grid { data, height: self.height, width: self.width, wrap: self.wrap }
    }
}

/// A raster of `target` pixels along one axis, laid over `side` cells,
/// takes the pixel `t` from a cell of the grid, and the product that finds
/// it is small.
pub proof fn lemma_source_in_range(t: int, target: int, side: int)
    requires
        0 <= t < target,
        0 < side,
    ensures
        0 <= t * side / target < side,
        0 <= t * side <= target * side,
{
    assert(0 <= t * side < target * side) by (nonlinear_arith)
        requires
            0 <= t < target,
            0 < side,
    ;
    lemma_div_pos_is_pos(t * side, target);
    lemma_multiply_divide_lt(t * side, target, side);
}

/// The rule of the game for one cell, see [`next_state`].
pub fn next_cell_state(cell: u8, n: i32) -> (v: u8)
    ensures
        v == next_state(cell, n as int),
{
    if cell == ALIVE && n != 2 && n != 3 {
        DEAD
    } else if cell == DEAD && n == 3 {
        ALIVE
    } else {
        cell
    }
}

/// A valid grid reads a binary state at every coordinate pair.
pub proof fn lemma_at_binary(g: GridView, x: int, y: int)
    requires
        g.wf(),
    ensures
        g.at(x, y) <= ALIVE,
{
    if g.wrap || g.in_range(x, y) {
        lemma_mod_bound(x, g.width);
        lemma_mod_bound(y, g.height);
        lemma_cell_index(x % g.width, y % g.height, g.width, g.height);
    }
}

/// The generation after a valid grid is a valid grid of the same shape.
pub proof fn lemma_next_wf(g: GridView)
    requires
        g.wf(),
    ensures
        g.next().wf(),
        g.next().same_shape(g),
{
    assert forall|i: int| 0 <= i < g.next().cells.len() implies #[trigger] g.next().cells[i]
        <= ALIVE by {
        lemma_at_binary(g, i % g.width, i / g.width);
    }
}

} // verus!
