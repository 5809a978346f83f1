use game_of_life::rules::step_cell;
use game_of_life::{Cell, Universe};

/// Builds a universe of the given size whose live cells are exactly the
/// listed (row, col) coordinates.
fn grid(height: usize, width: usize, alive: &[(usize, usize)]) -> Universe {
    let mut cells = vec![Cell::Dead; height * width];
    for &(r, c) in alive {
        cells[r * width + c] = Cell::Alive;
    }
    Universe::from_cells(height, width, cells)
}

#[test]
fn new_is_64_by_64() {
    let u = Universe::new();
    assert_eq!(u.height(), 64);
    assert_eq!(u.width(), 64);
    assert_eq!(u.cells().len(), 64 * 64);
}

#[test]
fn new_matches_seed_rule() {
    let u = Universe::new();
    for (idx, cell) in u.cells().iter().enumerate() {
        let expected = if idx % 7 == 0 || idx % 2 == 0 {
            Cell::Alive
        } else {
            Cell::Dead
        };
        assert_eq!(*cell, expected, "seed mismatch at index {}", idx);
    }
}

#[test]
fn new_is_deterministic() {
    let a = Universe::new();
    let b = Universe::new();
    assert_eq!(a.cells(), b.cells());
    assert_eq!(a.height(), b.height());
    assert_eq!(a.width(), b.width());
}

#[test]
fn tick_preserves_size() {
    let mut u = Universe::new();
    for _ in 0..3 {
        u.tick();
        assert_eq!(u.cells().len(), (u.height() * u.width()) as usize);
    }
    let mut small = grid(3, 5, &[(0, 0), (1, 3)]);
    small.tick();
    assert_eq!(small.cells().len(), 15);
    assert_eq!(small.height(), 3);
    assert_eq!(small.width(), 5);
}

#[test]
fn from_cells_keeps_buffer() {
    let cells = vec![Cell::Alive, Cell::Dead, Cell::Dead, Cell::Alive, Cell::Dead, Cell::Alive];
    let u = Universe::from_cells(2, 3, cells.clone());
    assert_eq!(u.height(), 2);
    assert_eq!(u.width(), 3);
    assert_eq!(u.cells(), &cells);
}

#[test]
fn step_cell_follows_rule_table() {
    for n in 0u8..=8 {
        let from_alive = step_cell(Cell::Alive, n);
        let from_dead = step_cell(Cell::Dead, n);
        if n == 2 || n == 3 {
            assert_eq!(from_alive, Cell::Alive);
        } else {
            assert_eq!(from_alive, Cell::Dead);
        }
        if n == 3 {
            assert_eq!(from_dead, Cell::Alive);
        } else {
            assert_eq!(from_dead, Cell::Dead);
        }
    }
}
