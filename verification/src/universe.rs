//! The `Universe`: a fixed-size toroidal grid of cells and its life-cycle.

use vstd::prelude::*;

use crate::rules::{
    alive_at, cell_at, flat_index, glyph, lemma_flat_index_in_range, lemma_next_grid_at,
    live_neighbour_count, next_grid, render_chars, row_chars, seed_cell, step_cell, wrap_dec,
    wrap_inc, Cell,
};

verus! {

/// A toroidal grid of cells. The dimensions are fixed at construction;
/// the buffer always holds exactly `height * width` cells, row-major.
pub struct Universe {
    height: usize,
    width: usize,
    cells: Vec<Cell>,
}

impl Universe {
    /// The grid height, as a mathematical integer.
    pub closed spec fn spec_height(&self) -> int {
        self.height as int
    }

    /// The grid width, as a mathematical integer.
    pub closed spec fn spec_width(&self) -> int {
        self.width as int
    }

    /// The cell buffer, as a sequence in row-major order.
    pub closed spec fn spec_cells(&self) -> Seq<Cell> {
        self.cells@
    }

    /// Well-formedness: positive dimensions that fit a `u32`, and a buffer
    /// of exactly `height * width` cells.
    pub open spec fn wf(&self) -> bool {
        &&& 0 < self.spec_height() <= u32::MAX
        &&& 0 < self.spec_width() <= u32::MAX
        &&& self.spec_cells().len() == self.spec_height() * self.spec_width()
    }

    /// A universe in the seeded initial state: 64 x 64, every cell given
    /// by `seed_cell` of its flat index.
    pub open spec fn seeded(&self) -> bool {
        &&& self.spec_height() == 64
        &&& self.spec_width() == 64
        &&& self.spec_cells().len() == 64 * 64
        &&& forall|k: int|
            0 <= k < self.spec_cells().len() ==> #[trigger] self.spec_cells()[k] == seed_cell(k)
    }

    /// Builds the seeded 64 x 64 universe. Construction is deterministic:
    /// the cell at flat index `idx` is alive exactly when `idx` is
    /// divisible by 7 or by 2.
    pub fn new() -> (u: Universe)
        ensures
            u.wf(),
            u.seeded(),
    {
        let height: usize = 64;
        let width: usize = 64;
        let total: usize = height * width;
        let mut cells: Vec<Cell> = Vec::new();
        let mut idx: usize = 0;
        while idx < total
            invariant
                idx <= total,
                total == 64 * 64,
                cells@.len() == idx,
                forall|k: int| 0 <= k < idx ==> #[trigger] cells@[k] == seed_cell(k),
            decreases total - idx,
        {
            if idx % 7 == 0 || idx % 2 == 0 {
                cells.push(Cell::Alive);
            } else {
                cells.push(Cell::Dead);
            }
            idx += 1;
        }
        Universe { height, width, cells }
    }

    /// Builds a universe from explicit dimensions and a row-major cell
    /// buffer of matching length.
    pub fn from_cells(height: usize, width: usize, cells: Vec<Cell>) -> (u: Universe)
        requires
            0 < height <= u32::MAX,
            0 < width <= u32::MAX,
            cells@.len() == height * width,
        ensures
            u.wf(),
            u.spec_height() == height,
            u.spec_width() == width,
            u.spec_cells() == cells@,
    {
        Universe { height, width, cells }
    }

    /// The grid height.
    pub fn height(&self) -> (h: u32)
        requires
            self.wf(),
        ensures
            h == self.spec_height(),
    {
        self.height as u32
    }

    /// The grid width.
    pub fn width(&self) -> (w: u32)
        requires
            self.wf(),
        ensures
            w == self.spec_width(),
    {
        self.width as u32
    }

    /// Row-major flat index of the cell at `(ci, cj)`.
    fn get_1d_coordinate(&self, ci: usize, cj: usize) -> (idx: usize)
        requires
            self.wf(),
            ci < self.spec_height(),
            cj < self.spec_width(),
        ensures
            idx == flat_index(ci as int, cj as int, self.spec_width()),
            idx < self.spec_cells().len(),
    {
        proof {
            lemma_flat_index_in_range(self.spec_height(), self.spec_width(), ci as int, cj as int);
        }
        let len: usize = self.cells.len();
        assert(flat_index(ci as int, cj as int, self.spec_width()) < len);
        ci * self.width + cj
    }

    /// Whether the cell at `(r, c)` is alive in the current generation.
    fn is_alive_at(&self, r: usize, c: usize) -> (b: bool)
        requires
            self.wf(),
            r < self.spec_height(),
            c < self.spec_width(),
        ensures
            b == (cell_at(self.spec_cells(), self.spec_width(), r as int, c as int) is Alive),
    {
        let idx: usize = self.get_1d_coordinate(r, c);
        matches!(self.cells[idx], Cell::Alive)
    }

    /// The contribution of the cell at `(r, c)` to a neighbour count:
    /// 1 if it is alive, 0 if it is dead.
    fn alive_score(&self, r: usize, c: usize) -> (n: u8)
        requires
            self.wf(),
            r < self.spec_height(),
            c < self.spec_width(),
        ensures
            n == alive_at(self.spec_cells(), self.spec_width(), r as int, c as int),
    {
        if self.is_alive_at(r, c) {
            1
        } else {
            0
        }
    }

    /// Counts the live cells among the eight toroidal neighbours of
    /// `(c_i, c_j)`: each coordinate wraps around its axis, so the cells
    /// in row 0 and row `height - 1` (and in column 0 and `width - 1`)
    /// are adjacent.
    fn live_neighbours_count(&self, c_i: usize, c_j: usize) -> (n: u8)
        requires
            self.wf(),
            c_i < self.spec_height(),
            c_j < self.spec_width(),
        ensures
            n == live_neighbour_count(
                self.spec_cells(),
                self.spec_height(),
                self.spec_width(),
                c_i as int,
                c_j as int,
            ),
    {
        let up: usize = if c_i == 0 {
            self.height - 1
        } else {
            c_i - 1
        };
        let down: usize = if c_i + 1 == self.height {
            0
        } else {
            c_i + 1
        };
        let left: usize = if c_j == 0 {
            self.width - 1
        } else {
            c_j - 1
        };
        let right: usize = if c_j + 1 == self.width {
            0
        } else {
            c_j + 1
        };
        proof {
            assert(up as int == wrap_dec(c_i as int, self.spec_height()));
            assert(down as int == wrap_inc(c_i as int, self.spec_height()));
            assert(left as int == wrap_dec(c_j as int, self.spec_width()));
            assert(right as int == wrap_inc(c_j as int, self.spec_width()));
        }
        let n1: u8 = self.alive_score(up, left);
        let n2: u8 = self.alive_score(up, c_j);
        let n3: u8 = self.alive_score(up, right);
        let n4: u8 = self.alive_score(c_i, left);
        let n5: u8 = self.alive_score(c_i, right);
        let n6: u8 = self.alive_score(down, left);
        let n7: u8 = self.alive_score(down, c_j);
        let n8: u8 = self.alive_score(down, right);
        n1 + n2 + n3 + n4 + n5 + n6 + n7 + n8
    }

    /// Advances the whole grid by one generation. The new buffer is
    /// computed entirely from the current generation and replaces it
    /// atomically, so no partially updated state ever feeds back into a
    /// neighbour count of the same step.
    #[verifier::loop_isolation(false)]
    pub fn tick(&mut self)
        requires
            old(self).wf(),
        ensures
            final(self).wf(),
            final(self).spec_height() == old(self).spec_height(),
            final(self).spec_width() == old(self).spec_width(),
            final(self).spec_cells() == next_grid(
                old(self).spec_cells(),
                old(self).spec_height(),
                old(self).spec_width(),
            ),
    {
        let ghost g = self.spec_cells();
        let ghost h = self.spec_height();
        let ghost w = self.spec_width();
        let mut next: Vec<Cell> = Vec::new();
        let mut i: usize = 0;
        while i < self.height
            invariant
                i <= self.height,
                next@.len() == i * w,
                forall|k: int| 0 <= k < next@.len() ==> next@[k] == next_grid(g, h, w)[k],
            decreases self.height - i,
        {
            let mut j: usize = 0;
            while j < self.width
                invariant
                    j <= self.width,
                    i < self.height,
                    next@.len() == i * w + j,
                    forall|k: int| 0 <= k < next@.len() ==> next@[k] == next_grid(g, h, w)[k],
                decreases self.width - j,
            {
                let n: u8 = self.live_neighbours_count(i, j);
                let idx: usize = self.get_1d_coordinate(i, j);
                let cell = step_cell(self.cells[idx], n);
                proof {
                    lemma_next_grid_at(g, h, w, i as int, j as int);
                }
                next.push(cell);
                j += 1;
            }
            proof {
                assert((i + 1) * w == i * w + w) by (nonlinear_arith);
            }
            i += 1;
        }
        proof {
            assert(next@ =~= next_grid(g, h, w));
        }
        self.cells = next;
    }

    /// Renders the current generation as text: one line per row, one
    /// glyph per cell (filled square for a live cell, hollow square for a
    /// dead one), every row terminated by a newline. The text is built
    /// fresh from the current buffer on each call.
    #[verifier::loop_isolation(false)]
    pub fn render(&self) -> (s: String)
        requires
            self.wf(),
        ensures
            s@ == render_chars(self.spec_cells(), self.spec_height(), self.spec_width()),
    {
        let ghost g = self.spec_cells();
        let ghost w = self.spec_width();
        let mut s = String::new();
        let mut i: usize = 0;
        while i < self.height
            invariant
                i <= self.height,
                s@ == render_chars(g, i as int, w),
            decreases self.height - i,
        {
            let mut j: usize = 0;
            while j < self.width
                invariant
                    j <= self.width,
                    i < self.height,
                    s@ == render_chars(g, i as int, w) + row_chars(g, w, i as int).take(j as int),
                decreases self.width - j,
            {
                if self.is_alive_at(i, j) {
                    s.append("◼");
                    proof {
                        reveal_strlit("◼");
                    }
                } else {
                    s.append("◻");
                    proof {
                        reveal_strlit("◻");
                    }
                }
                proof {
                    let row = row_chars(g, w, i as int);
                    assert(row.take(j + 1) =~= row.take(j as int) + seq![
                        glyph(cell_at(g, w, i as int, j as int)),
                    ]);
                }
                j += 1;
            }
            s.append("\n");
            proof {
                reveal_strlit("\n");
                let row = row_chars(g, w, i as int);
                assert(row.take(w as int) =~= row);
                assert("\n"@ =~= seq!['\n']);
                assert(s@ =~= render_chars(g, i + 1, w));
            }
            i += 1;
        }
        s
    }

    /// Read-only access to the current generation's cell buffer,
    /// row-major, of length `height * width`.
    pub fn cells(&self) -> (c: &Vec<Cell>)
        ensures
            c@ == self.spec_cells(),
    {
        &self.cells
    }
}

/// Construction is deterministic: any two universes in the seeded
/// initial state (as every result of `new` is) agree on their dimensions
/// and hold identical cell buffers.
pub proof fn lemma_new_is_deterministic(a: &Universe, b: &Universe)
    requires
        a.seeded(),
        b.seeded(),
    ensures
        a.spec_height() == b.spec_height(),
        a.spec_width() == b.spec_width(),
        a.spec_cells() == b.spec_cells(),
{
    assert(a.spec_cells() =~= b.spec_cells());
}

} // verus!
