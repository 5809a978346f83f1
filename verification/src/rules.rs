//! The mathematical model of the game: cell states, the toroidal grid
//! addressing, neighbour counting, and the B3/S23 transition rule.

use vstd::prelude::*;

verus! {

/// The state of one grid square. `Dead` comes first so that the natural
/// binary representation is Dead = 0, Alive = 1.
#[derive(Clone, Copy, PartialEq, Eq, Structural, Debug)]
pub enum Cell {
    Dead,
    Alive,
}

/// Row-major position of `(row, col)` in a flat buffer of the given width.
pub open spec fn flat_index(row: int, col: int, width: int) -> int {
    row * width + col
}

/// The cell stored at `(row, col)` in a row-major buffer of the given width.
pub open spec fn cell_at(cells: Seq<Cell>, width: int, row: int, col: int) -> Cell {
    cells[flat_index(row, col, width)]
}

/// 1 if the cell at `(row, col)` is alive, otherwise 0.
pub open spec fn alive_at(cells: Seq<Cell>, width: int, row: int, col: int) -> int {
    if cell_at(cells, width, row, col) is Alive {
        1int
    } else {
        0int
    }
}

/// The coordinate one step towards zero on a toroidal axis of extent `m`:
/// position 0 wraps to `m - 1`.
pub open spec fn wrap_dec(i: int, m: int) -> int {
    if i == 0 {
        m - 1
    } else {
        i - 1
    }
}

/// The coordinate one step away from zero on a toroidal axis of extent `m`:
/// position `m - 1` wraps to 0.
pub open spec fn wrap_inc(i: int, m: int) -> int {
    if i + 1 == m {
        0
    } else {
        i + 1
    }
}

/// The number of live cells among the eight toroidal (Moore) neighbours
/// of `(row, col)`.
pub open spec fn live_neighbour_count(
    cells: Seq<Cell>,
    height: int,
    width: int,
    row: int,
    col: int,
) -> int {
    let up = wrap_dec(row, height);
    let down = wrap_inc(row, height);
    let left = wrap_dec(col, width);
    let right = wrap_inc(col, width);
    alive_at(cells, width, up, left) + alive_at(cells, width, up, col) + alive_at(
        cells,
        width,
        up,
        right,
    ) + alive_at(cells, width, row, left) + alive_at(cells, width, row, right) + alive_at(
        cells,
        width,
        down,
        left,
    ) + alive_at(cells, width, down, col) + alive_at(cells, width, down, right)
}

/// The B3/S23 transition for a single cell: a live cell survives with two
/// or three live neighbours, a dead cell comes alive with exactly three,
/// and every other cell is dead in the next generation.
pub open spec fn next_cell(c: Cell, n: int) -> Cell {
    match c {
        Cell::Alive => if n == 2 || n == 3 {
            Cell::Alive
        } else {
            Cell::Dead
        },
        Cell::Dead => if n == 3 {
            Cell::Alive
        } else {
            Cell::Dead
        },
    }
}

/// The next state of the cell at `(row, col)`.
pub open spec fn next_at(cells: Seq<Cell>, height: int, width: int, row: int, col: int) -> Cell {
    next_cell(
        cell_at(cells, width, row, col),
        live_neighbour_count(cells, height, width, row, col),
    )
}

/// The whole next generation of a `height` x `width` grid, row-major.
pub open spec fn next_grid(cells: Seq<Cell>, height: int, width: int) -> Seq<Cell> {
    Seq::new((height * width) as nat, |k: int| next_at(cells, height, width, k / width, k % width))
}

/// The grid `n` generations ahead.
pub open spec fn next_grid_n(cells: Seq<Cell>, height: int, width: int, n: nat) -> Seq<Cell>
    decreases n,
{
    if n == 0 {
        cells
    } else {
        next_grid(next_grid_n(cells, height, width, (n - 1) as nat), height, width)
    }
}

/// The seeded initial state of the cell at flat index `idx`: alive exactly
/// when `idx` is divisible by 7 or by 2.
pub open spec fn seed_cell(idx: int) -> Cell {
    if idx % 7 == 0 || idx % 2 == 0 {
        Cell::Alive
    } else {
        Cell::Dead
    }
}

/// The glyph a cell is rendered as: a filled square for a live cell, a
/// hollow square for a dead one.
pub open spec fn glyph(c: Cell) -> char {
    match c {
        Cell::Alive => '◼',
        Cell::Dead => '◻',
    }
}

/// The glyphs of one rendered row, without the trailing newline.
pub open spec fn row_chars(cells: Seq<Cell>, width: int, row: int) -> Seq<char> {
    Seq::new(width as nat, |j: int| glyph(cell_at(cells, width, row, j)))
}

/// The full rendering of the first `height` rows: each row's glyphs
/// followed by a newline, rows in order.
pub open spec fn render_chars(cells: Seq<Cell>, height: int, width: int) -> Seq<char>
    decreases height,
{
    if height <= 0 {
        Seq::empty()
    } else {
        render_chars(cells, height - 1, width) + row_chars(cells, width, height - 1) + seq!['\n']
    }
}

/// The executable B3/S23 transition for a single cell, given its current
/// state and its live-neighbour count.
pub fn step_cell(c: Cell, n: u8) -> (r: Cell)
    ensures
        r == next_cell(c, n as int),
{
    match c {
        Cell::Alive => if n == 2 || n == 3 {
            Cell::Alive
        } else {
            Cell::Dead
        },
        Cell::Dead => if n == 3 {
            Cell::Alive
        } else {
            Cell::Dead
        },
    }
}

/// A row-major index computed from in-range coordinates is in range for a
/// buffer of length `height * width`.
pub proof fn lemma_flat_index_in_range(height: int, width: int, row: int, col: int)
    requires
        0 <= row < height,
        0 <= col < width,
    ensures
        0 <= flat_index(row, col, width) < height * width,
{
    assert(0 <= row * width + col < height * width) by (nonlinear_arith)
        requires
            0 <= row < height,
            0 <= col < width,
    ;
}

/// The next generation at the flat index of `(row, col)` is the
/// pointwise transition `next_at` of that cell.
pub proof fn lemma_next_grid_at(cells: Seq<Cell>, height: int, width: int, row: int, col: int)
    requires
        0 <= row < height,
        0 <= col < width,
    ensures
        next_grid(cells, height, width)[flat_index(row, col, width)] == next_at(
            cells,
            height,
            width,
            row,
            col,
        ),
{
    let k = flat_index(row, col, width);
    lemma_flat_index_in_range(height, width, row, col);
    vstd::arithmetic::div_mod::lemma_fundamental_div_mod_converse_div(k, width, row, col);
    vstd::arithmetic::div_mod::lemma_fundamental_div_mod_converse_mod(k, width, row, col);
}

/// A grid every cell of which is its own successor is left unchanged by
/// one generation step.
pub proof fn lemma_pointwise_fixed(cells: Seq<Cell>, height: int, width: int)
    requires
        0 < height,
        0 < width,
        cells.len() == height * width,
        forall|r: int, c: int|
            0 <= r < height && 0 <= c < width ==> #[trigger] next_at(cells, height, width, r, c)
                == cell_at(cells, width, r, c),
    ensures
        next_grid(cells, height, width) == cells,
{
    let next = next_grid(cells, height, width);
    assert forall|k: int| 0 <= k < cells.len() implies next[k] == cells[k] by {
        let r = k / width;
        let c = k % width;
        vstd::arithmetic::div_mod::lemma_fundamental_div_mod(k, width);
        vstd::arithmetic::div_mod::lemma_mod_division_less_than_divisor(k, width);
        vstd::arithmetic::div_mod::lemma_div_pos_is_pos(k, width);
        vstd::arithmetic::mul::lemma_mul_is_commutative(height, width);
        vstd::arithmetic::div_mod::lemma_multiply_divide_lt(k, width, height);
        assert(k == r * width + c) by (nonlinear_arith)
            requires
                k == width * (k / width) + k % width,
                r == k / width,
                c == k % width,
        ;
        lemma_next_grid_at(cells, height, width, r, c);
        assert(next[k] == next_at(cells, height, width, r, c));
        assert(cell_at(cells, width, r, c) == cells[k]);
    }
    assert(next =~= cells);
}

/// A grid left unchanged by one generation step is left unchanged by any
/// number of them.
pub proof fn lemma_fixed_point_iterate(cells: Seq<Cell>, height: int, width: int, n: nat)
    requires
        next_grid(cells, height, width) == cells,
    ensures
        next_grid_n(cells, height, width, n) == cells,
    decreases n,
{
    if n > 0 {
        lemma_fixed_point_iterate(cells, height, width, (n - 1) as nat);
    }
}

/// Toroidal adjacency between the first and last rows: a live cell in
/// row `height - 1` is counted as a neighbour of the cell in row 0 at
/// the same column, and the other way round.
pub proof fn lemma_toroidal_rows(cells: Seq<Cell>, height: int, width: int, col: int)
    requires
        2 <= height,
        1 <= width,
        0 <= col < width,
        cells.len() == height * width,
    ensures
        cell_at(cells, width, height - 1, col) is Alive ==> live_neighbour_count(
            cells,
            height,
            width,
            0,
            col,
        ) >= 1,
        cell_at(cells, width, 0, col) is Alive ==> live_neighbour_count(
            cells,
            height,
            width,
            height - 1,
            col,
        ) >= 1,
{
    assert(wrap_dec(0, height) == height - 1);
    assert(wrap_inc(height - 1, height) == 0);
}

/// Toroidal adjacency between the first and last columns: a live cell in
/// column `width - 1` is counted as a neighbour of the cell in column 0
/// of the same row, and the other way round.
pub proof fn lemma_toroidal_columns(cells: Seq<Cell>, height: int, width: int, row: int)
    requires
        1 <= height,
        2 <= width,
        0 <= row < height,
        cells.len() == height * width,
    ensures
        cell_at(cells, width, row, width - 1) is Alive ==> live_neighbour_count(
            cells,
            height,
            width,
            row,
            0,
        ) >= 1,
        cell_at(cells, width, row, 0) is Alive ==> live_neighbour_count(
            cells,
            height,
            width,
            row,
            width - 1,
        ) >= 1,
{
    assert(wrap_dec(0, width) == width - 1);
    assert(wrap_inc(width - 1, width) == 0);
}

/// A live cell with no live neighbours dies of isolation, and a dead
/// cell with exactly three live neighbours comes alive, in the next
/// generation.
pub proof fn lemma_isolated_dies_and_birth(
    cells: Seq<Cell>,
    height: int,
    width: int,
    row: int,
    col: int,
)
    requires
        0 < height,
        0 < width,
        0 <= row < height,
        0 <= col < width,
        cells.len() == height * width,
    ensures
        cell_at(cells, width, row, col) is Alive && live_neighbour_count(
            cells,
            height,
            width,
            row,
            col,
        ) == 0 ==> next_grid(cells, height, width)[flat_index(row, col, width)] is Dead,
        cell_at(cells, width, row, col) is Dead && live_neighbour_count(
            cells,
            height,
            width,
            row,
            col,
        ) == 3 ==> next_grid(cells, height, width)[flat_index(row, col, width)] is Alive,
{
    lemma_next_grid_at(cells, height, width, row, col);
}

/// A grid with no live cell at all stays that way: one step returns the
/// very same grid.
pub proof fn lemma_all_dead_stable(cells: Seq<Cell>, height: int, width: int)
    requires
        0 < height,
        0 < width,
        cells.len() == height * width,
        forall|k: int| 0 <= k < cells.len() ==> #[trigger] cells[k] is Dead,
    ensures
        next_grid(cells, height, width) == cells,
{
    assert forall|r: int, c: int|
        0 <= r < height && 0 <= c < width implies #[trigger] next_at(cells, height, width, r, c)
        == cell_at(cells, width, r, c) by {
        let up = wrap_dec(r, height);
        let down = wrap_inc(r, height);
        let left = wrap_dec(c, width);
        let right = wrap_inc(c, width);
        lemma_flat_index_in_range(height, width, r, c);
        lemma_flat_index_in_range(height, width, up, left);
        lemma_flat_index_in_range(height, width, up, c);
        lemma_flat_index_in_range(height, width, up, right);
        lemma_flat_index_in_range(height, width, r, left);
        lemma_flat_index_in_range(height, width, r, right);
        lemma_flat_index_in_range(height, width, down, left);
        lemma_flat_index_in_range(height, width, down, c);
        lemma_flat_index_in_range(height, width, down, right);
        assert(live_neighbour_count(cells, height, width, r, c) == 0);
    }
    lemma_pointwise_fixed(cells, height, width);
}

/// A grid with no live cell at all is unchanged by any number of steps.
pub proof fn lemma_all_dead_stable_forever(cells: Seq<Cell>, height: int, width: int, n: nat)
    requires
        0 < height,
        0 < width,
        cells.len() == height * width,
        forall|k: int| 0 <= k < cells.len() ==> #[trigger] cells[k] is Dead,
    ensures
        next_grid_n(cells, height, width, n) == cells,
{
    lemma_all_dead_stable(cells, height, width);
    lemma_fixed_point_iterate(cells, height, width, n);
}

/// A grid whose only live cells form the 2 x 2 block whose top-left
/// corner is `(row, col)`, the other three cells one toroidal step down
/// and right, every other cell dead. The block may span the wrap edges.
pub open spec fn block_grid(cells: Seq<Cell>, height: int, width: int, row: int, col: int) -> bool {
    forall|i: int, j: int|
        0 <= i < height && 0 <= j < width ==> #[trigger] cell_at(cells, width, i, j) == (
        if (i == row || i == wrap_inc(row, height)) && (j == col || j == wrap_inc(col, width)) {
            Cell::Alive
        } else {
            Cell::Dead
        })
}

/// The 2 x 2 block is a still life: on a toroidal grid of at least
/// 4 x 4, a block placed anywhere (the wrap edges included) is returned
/// unchanged by one generation step.
#[verifier::rlimit(100)]
pub proof fn lemma_block_still_life(
    cells: Seq<Cell>,
    height: int,
    width: int,
    row: int,
    col: int,
)
    requires
        4 <= height,
        4 <= width,
        0 <= row < height,
        0 <= col < width,
        cells.len() == height * width,
        block_grid(cells, height, width, row, col),
    ensures
        next_grid(cells, height, width) == cells,
{
    assert forall|i: int, j: int|
        0 <= i < height && 0 <= j < width implies #[trigger] next_at(cells, height, width, i, j)
        == cell_at(cells, width, i, j) by {
        let up = wrap_dec(i, height);
        let down = wrap_inc(i, height);
        let left = wrap_dec(j, width);
        let right = wrap_inc(j, width);
        assert(0 <= up < height && 0 <= down < height);
        assert(0 <= left < width && 0 <= right < width);
        assert(alive_at(cells, width, up, left) <= 1 && alive_at(cells, width, up, j) <= 1
            && alive_at(cells, width, up, right) <= 1);
        assert(alive_at(cells, width, i, left) <= 1 && alive_at(cells, width, i, right) <= 1);
        assert(alive_at(cells, width, down, left) <= 1 && alive_at(cells, width, down, j) <= 1
            && alive_at(cells, width, down, right) <= 1);
    }
    lemma_pointwise_fixed(cells, height, width);
}

/// A block placed anywhere on a toroidal grid of at least 4 x 4 is
/// unchanged by any number of steps.
pub proof fn lemma_block_still_life_forever(
    cells: Seq<Cell>,
    height: int,
    width: int,
    row: int,
    col: int,
    n: nat,
)
    requires
        4 <= height,
        4 <= width,
        0 <= row < height,
        0 <= col < width,
        cells.len() == height * width,
        block_grid(cells, height, width, row, col),
    ensures
        next_grid_n(cells, height, width, n) == cells,
{
    lemma_block_still_life(cells, height, width, row, col);
    lemma_fixed_point_iterate(cells, height, width, n);
}

} // verus!
