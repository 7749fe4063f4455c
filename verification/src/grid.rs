//! The simulation board: a flat, row-major buffer of cell states with
//! bounds-checked access and the one-step B3/S23 transition.

use vstd::arithmetic::div_mod::lemma_fundamental_div_mod_converse;
use vstd::prelude::*;

verus! {

/// The only construction failure: a non-positive dimension.
#[derive(Clone, Copy, Debug, PartialEq, Eq, Structural)]
pub enum GridError {
    InvalidDimension,
}

/// A fixed-size Game of Life board. Cells outside the board are permanently
/// dead: the grid does not wrap.
pub struct Grid {
    width: i32,
    height: i32,
    cells: Vec<bool>,
    generation: u64,
}

/// 1 for a live cell, 0 for a dead one; the unit of neighbor counting.
pub open spec fn live_as_int(alive: bool) -> int {
    if alive {
        1
    } else {
        0
    }
}

/// A row-major index stays within the buffer.
proof fn lemma_row_major_index_bounds(w: int, h: int, x: int, y: int)
    requires
        0 <= x < w,
        0 <= y < h,
    ensures
        0 <= y * w + x < w * h,
{
    assert(0 <= y * w + x < w * h) by (nonlinear_arith)
        requires
            0 <= x < w,
            0 <= y < h,
    ;
}

/// Distinct in-range coordinates never share a row-major index.
proof fn lemma_row_major_index_injective(w: int, x1: int, y1: int, x2: int, y2: int)
    requires
        0 < w,
        0 <= x1 < w,
        0 <= y1,
        0 <= x2 < w,
        0 <= y2,
        y1 * w + x1 == y2 * w + x2,
    ensures
        x1 == x2,
        y1 == y2,
{
    lemma_fundamental_div_mod_converse(y1 * w + x1, w, y1, x1);
    lemma_fundamental_div_mod_converse(y2 * w + x2, w, y2, x2);
}

impl Grid {
    pub closed spec fn spec_width(self) -> int {
        self.width as int
    }

    pub closed spec fn spec_height(self) -> int {
        self.height as int
    }

    pub closed spec fn spec_generation(self) -> int {
        self.generation as int
    }

    /// Well-formed: positive dimensions and a buffer of exactly
    /// width * height cells.
    pub closed spec fn wf(self) -> bool {
        &&& 0 < self.width
        &&& 0 < self.height
        &&& self.cells@.len() == self.spec_width() * self.spec_height()
    }

    pub open spec fn in_bounds(self, x: int, y: int) -> bool {
        0 <= x < self.spec_width() && 0 <= y < self.spec_height()
    }

    /// The state of the cell at (x, y); every coordinate off the board reads
    /// as dead.
    pub closed spec fn cell(self, x: int, y: int) -> bool {
        self.in_bounds(x, y) && self.cells@[y * self.spec_width() + x]
    }

    /// How many of the eight Moore neighbors of (x, y) are alive, the
    /// off-board ones counting as dead.
    pub open spec fn live_neighbors(self, x: int, y: int) -> int {
        live_as_int(self.cell(x - 1, y - 1)) + live_as_int(self.cell(x, y - 1)) + live_as_int(
            self.cell(x + 1, y - 1),
        ) + live_as_int(self.cell(x - 1, y)) + live_as_int(self.cell(x + 1, y)) + live_as_int(
            self.cell(x - 1, y + 1),
        ) + live_as_int(self.cell(x, y + 1)) + live_as_int(self.cell(x + 1, y + 1))
    }

    /// The B3/S23 rule: a live cell survives with two or three live
    /// neighbors, a dead cell is born with exactly three.
    pub open spec fn next_cell(self, x: int, y: int) -> bool {
        if self.cell(x, y) {
            self.live_neighbors(x, y) == 2 || self.live_neighbors(x, y) == 3
        } else {
            self.live_neighbors(x, y) == 3
        }
    }

    /// The dimensions always fit the machine coordinate type, so a
    /// mathematical coordinate beyond it is off the board; and on a
    /// well-formed grid they are positive.
    pub proof fn lemma_dims_fit(self)
        ensures
            self.spec_width() <= i32::MAX as int,
            self.spec_height() <= i32::MAX as int,
            self.wf() ==> 0 < self.spec_width() && 0 < self.spec_height(),
    {
    }

    /// Builds a grid of the given dimensions with every cell dead and the
    /// generation counter at zero. Non-positive dimensions are rejected.
    pub fn new(width: i32, height: i32) -> (result: Result<Grid, GridError>)
        requires
            width > 0 && height > 0 ==> width * height <= usize::MAX,
        ensures
            result is Ok <==> (width > 0 && height > 0),
            result is Err ==> result == Result::<Grid, GridError>::Err(GridError::InvalidDimension),
            result is Ok ==> {
                let g = result->Ok_0;
                &&& g.wf()
                &&& g.spec_width() == width
                &&& g.spec_height() == height
                &&& g.spec_generation() == 0
                &&& forall|x: int, y: int| !(#[trigger] g.cell(x, y))
            },
    {
        if width <= 0 || height <= 0 {
            return Err(GridError::InvalidDimension);
        }
        let n: usize = (width as usize) * (height as usize);
        let mut cells: Vec<bool> = Vec::new();
        while cells.len() < n
            invariant
                cells@.len() <= n,
                forall|k: int| 0 <= k < cells@.len() ==> !(#[trigger] cells@[k]),
            decreases n - cells@.len(),
        {
            cells.push(false);
        }
        let g = Grid { width, height, cells, generation: 0 };
        proof {
            assert forall|x: int, y: int| !(#[trigger] g.cell(x, y)) by {
                if g.in_bounds(x, y) {
                    lemma_row_major_index_bounds(g.spec_width(), g.spec_height(), x, y);
                }
            }
        }
        Ok(g)
    }

    pub fn width(&self) -> (w: i32)
        ensures
            w as int == self.spec_width(),
    {
        self.width
    }

    pub fn height(&self) -> (h: i32)
        ensures
            h as int == self.spec_height(),
    {
        self.height
    }

    pub fn generation(&self) -> (g: u64)
        ensures
            g as int == self.spec_generation(),
    {
        self.generation
    }

    /// Reads the cell at (x, y). Any out-of-range coordinate, negative ones
    /// included, reads as dead; this fixed-boundary convention is what the
    /// transition rule sees at the edges.
    pub fn get_cell(&self, x: i32, y: i32) -> (alive: bool)
        requires
            self.wf(),
        ensures
            alive == self.cell(x as int, y as int),
    {
        if x >= 0 && y >= 0 && x < self.width && y < self.height {
            let _buffer_len = self.cells.len();
            proof {
                lemma_row_major_index_bounds(self.spec_width(), self.spec_height(), x as int, y as int);
            }
            let idx: usize = (y as usize) * (self.width as usize) + (x as usize);
            self.cells[idx]
        } else {
            false
        }
    }

    /// Counts the live Moore neighbors of an in-range cell.
    fn count_live_neighbors(&self, x: i32, y: i32) -> (n: u8)
        requires
            self.wf(),
            0 <= x < self.spec_width(),
            0 <= y < self.spec_height(),
        ensures
            n as int == self.live_neighbors(x as int, y as int),
    {
        let mut n: u8 = 0;
        if self.get_cell(x - 1, y - 1) {
            n = n + 1;
        }
        if self.get_cell(x, y - 1) {
            n = n + 1;
        }
        if self.get_cell(x + 1, y - 1) {
            n = n + 1;
        }
        if self.get_cell(x - 1, y) {
            n = n + 1;
        }
        if self.get_cell(x + 1, y) {
            n = n + 1;
        }
        if self.get_cell(x - 1, y + 1) {
            n = n + 1;
        }
        if self.get_cell(x, y + 1) {
            n = n + 1;
        }
        if self.get_cell(x + 1, y + 1) {
            n = n + 1;
        }
        n
    }

    /// Builds the whole next-generation buffer, row-major, reading only the
    /// current one.
    fn compute_next(&self) -> (next_cells: Vec<bool>)
        requires
            self.wf(),
        ensures
            next_cells@.len() == self.spec_width() * self.spec_height(),
            forall|m: int|
                0 <= m < next_cells@.len() ==> #[trigger] next_cells@[m] == self.next_cell(
                    m % self.spec_width(),
                    m / self.spec_width(),
                ),
    {
        let w = self.width;
        let h = self.height;
        let mut next_cells: Vec<bool> = Vec::new();
        let mut y: i32 = 0;
        while y < h
            invariant
                self.wf(),
                w == self.width,
                h == self.height,
                0 <= y <= h,
                next_cells@.len() == y as int * w as int,
                forall|m: int|
                    0 <= m < next_cells@.len() ==> #[trigger] next_cells@[m] == self.next_cell(
                        m % w as int,
                        m / w as int,
                    ),
            decreases h - y,
        {
            let mut x: i32 = 0;
            while x < w
                invariant
                    self.wf(),
                    w == self.width,
                    h == self.height,
                    0 <= y < h,
                    0 <= x <= w,
                    next_cells@.len() == y as int * w as int + x as int,
                    forall|m: int|
                        0 <= m < next_cells@.len() ==> #[trigger] next_cells@[m] == self.next_cell(
                            m % w as int,
                            m / w as int,
                        ),
                decreases w - x,
            {
                let alive = self.get_cell(x, y);
                let n = self.count_live_neighbors(x, y);
                let next_state = if alive {
                    n == 2 || n == 3
                } else {
                    n == 3
                };
                proof {
                    lemma_row_major_index_bounds(w as int, h as int, x as int, y as int);
                    lemma_fundamental_div_mod_converse(
                        y as int * w as int + x as int,
                        w as int,
                        y as int,
                        x as int,
                    );
                    assert(next_state == self.next_cell(x as int, y as int));
                }
                next_cells.push(next_state);
                x = x + 1;
            }
            proof {
                assert((y as int + 1) * w as int == y as int * w as int + w as int)
                    by (nonlinear_arith);
            }
            y = y + 1;
        }
        proof {
            assert(h as int * w as int == w as int * h as int) by (nonlinear_arith);
        }
        next_cells
    }

    /// Advances the simulation by exactly one generation: every cell is
    /// rewritten by the B3/S23 rule as read from the previous buffer, and the
    /// generation counter grows by one.
    pub fn advance(&mut self)
        requires
            old(self).wf(),
            old(self).spec_generation() < u64::MAX,
        ensures
            final(self).wf(),
            final(self).spec_width() == old(self).spec_width(),
            final(self).spec_height() == old(self).spec_height(),
            final(self).spec_generation() == old(self).spec_generation() + 1,
            forall|x: int, y: int|
                #[trigger] final(self).cell(x, y) == (old(self).in_bounds(x, y) && old(
                    self,
                ).next_cell(x, y)),
    {
        let next_cells = self.compute_next();
        self.cells = next_cells;
        self.generation = self.generation + 1;
        proof {
            assert forall|x: int, y: int|
                #[trigger] self.cell(x, y) == (old(self).in_bounds(x, y) && old(self).next_cell(
                    x,
                    y,
                )) by {
                if old(self).in_bounds(x, y) {
                    lemma_row_major_index_bounds(
                        old(self).spec_width(),
                        old(self).spec_height(),
                        x,
                        y,
                    );
                    lemma_fundamental_div_mod_converse(
                        y * old(self).spec_width() + x,
                        old(self).spec_width(),
                        y,
                        x,
                    );
                }
            }
        }
    }

    /// Writes the cell at (x, y) if the coordinate is on the board and
    /// silently does nothing otherwise, so that organisms placed near an edge
    /// are clipped rather than rejected.
    pub fn set_cell(&mut self, x: i32, y: i32, alive: bool)
        requires
            old(self).wf(),
        ensures
            final(self).wf(),
            final(self).spec_width() == old(self).spec_width(),
            final(self).spec_height() == old(self).spec_height(),
            final(self).spec_generation() == old(self).spec_generation(),
            forall|i: int, j: int|
                #[trigger] final(self).cell(i, j) == if i == x as int && j == y as int && old(
                    self,
                ).in_bounds(i, j) {
                    alive
                } else {
                    old(self).cell(i, j)
                },
    {
        if x >= 0 && y >= 0 && x < self.width && y < self.height {
            let _buffer_len = self.cells.len();
            proof {
                lemma_row_major_index_bounds(self.spec_width(), self.spec_height(), x as int, y as int);
            }
            let idx: usize = (y as usize) * (self.width as usize) + (x as usize);
            self.cells[idx] = alive;
            proof {
                assert forall|i: int, j: int|
                    #[trigger] self.cell(i, j) == if i == x as int && j == y as int && old(
                        self,
                    ).in_bounds(i, j) {
                        alive
                    } else {
                        old(self).cell(i, j)
                    } by {
                    if self.in_bounds(i, j) {
                        lemma_row_major_index_bounds(self.spec_width(), self.spec_height(), i, j);
                        if !(i == x as int && j == y as int) {
                            if j * self.spec_width() + i == y as int * self.spec_width()
                                + x as int {
                                lemma_row_major_index_injective(
                                    self.spec_width(),
                                    i,
                                    j,
                                    x as int,
                                    y as int,
                                );
                            }
                        }
                    }
                }
            }
        }
    }
}

} // verus!
