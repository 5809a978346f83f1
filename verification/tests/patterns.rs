use game_of_life::{Cell, Universe};

/// Builds a universe of the given size whose live cells are exactly the
/// listed (row, col) coordinates.
fn grid(height: usize, width: usize, alive: &[(usize, usize)]) -> Universe {
    let mut cells = vec![Cell::Dead; height * width];
    for &(r, c) in alive {
        cells[r * width + c] = Cell::Alive;
    }
    Universe::from_cells(height, width, cells)
}

/// The live coordinates of a universe, row-major.
fn alive_coords(u: &Universe) -> Vec<(usize, usize)> {
    let width = u.width() as usize;
    let mut out = Vec::new();
    for (idx, cell) in u.cells().iter().enumerate() {
        if matches!(cell, Cell::Alive) {
            out.push((idx / width, idx % width));
        }
    }
    out
}

#[test]
fn all_dead_stays_dead() {
    let mut u = grid(4, 4, &[]);
    for _ in 0..5 {
        u.tick();
        assert!(u.cells().iter().all(|c| matches!(c, Cell::Dead)));
    }
}

#[test]
fn block_is_a_still_life() {
    let block = [(1, 1), (1, 2), (2, 1), (2, 2)];
    let mut u = grid(4, 4, &block);
    let before = u.cells().clone();
    for _ in 0..3 {
        u.tick();
        assert_eq!(u.cells(), &before);
    }
}

#[test]
fn block_spanning_the_wrap_edges_is_a_still_life() {
    // the 2x2 block with top-left corner (3,3) wraps onto rows {3,0}
    // and columns {3,0}
    let block = [(3, 3), (3, 0), (0, 3), (0, 0)];
    let mut u = grid(4, 4, &block);
    let before = u.cells().clone();
    for _ in 0..3 {
        u.tick();
        assert_eq!(u.cells(), &before);
    }
}

#[test]
fn isolated_cell_dies() {
    let mut u = grid(4, 4, &[(1, 1)]);
    u.tick();
    assert!(u.cells().iter().all(|c| matches!(c, Cell::Dead)));
}

#[test]
fn dead_cell_with_three_neighbours_is_born() {
    // three live cells around the dead cell at (1,1)
    let mut u = grid(4, 4, &[(0, 0), (0, 1), (1, 0)]);
    u.tick();
    assert_eq!(u.cells()[1 * 4 + 1], Cell::Alive);
}

#[test]
fn rows_wrap_around() {
    // a horizontal blinker on the bottom row flips to a vertical one
    // that crosses the bottom edge into row 0
    let mut u = grid(4, 4, &[(3, 0), (3, 1), (3, 2)]);
    u.tick();
    assert_eq!(alive_coords(&u), vec![(0, 1), (2, 1), (3, 1)]);
    u.tick();
    assert_eq!(alive_coords(&u), vec![(3, 0), (3, 1), (3, 2)]);
}

#[test]
fn columns_wrap_around() {
    // a vertical blinker on the last column flips to a horizontal one
    // that crosses the right edge into column 0
    let mut u = grid(4, 4, &[(0, 3), (1, 3), (2, 3)]);
    u.tick();
    assert_eq!(alive_coords(&u), vec![(1, 0), (1, 2), (1, 3)]);
    u.tick();
    assert_eq!(alive_coords(&u), vec![(0, 3), (1, 3), (2, 3)]);
}

#[test]
fn glider_advances_one_diagonal_step_in_four_ticks() {
    let glider = [(0, 1), (1, 2), (2, 0), (2, 1), (2, 2)];
    let mut u = grid(6, 6, &glider);
    for _ in 0..4 {
        u.tick();
    }
    let shifted: Vec<(usize, usize)> = glider.iter().map(|&(r, c)| (r + 1, c + 1)).collect();
    let mut got = alive_coords(&u);
    let mut want = shifted;
    got.sort();
    want.sort();
    assert_eq!(got, want);
}

#[test]
fn blinker_oscillates_with_period_two() {
    let mut u = grid(5, 5, &[(2, 1), (2, 2), (2, 3)]);
    u.tick();
    assert_eq!(alive_coords(&u), vec![(1, 2), (2, 2), (3, 2)]);
    u.tick();
    assert_eq!(alive_coords(&u), vec![(2, 1), (2, 2), (2, 3)]);
}
