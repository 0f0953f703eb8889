use game_of_life::Cell;
use game_of_life::Universe;

const A: Cell = Cell::Alive;
const D: Cell = Cell::Dead;

#[test]
fn cell_is_alive() {
    assert!(A.is_alive());
    assert!(!D.is_alive());
}

#[test]
fn new_has_fixed_dimensions_and_seed() {
    let u = Universe::new();
    assert_eq!(u.width(), 128);
    assert_eq!(u.height(), 128);
    assert_eq!(u.cells().len(), 128 * 128);
    for i in 0..(128 * 128) {
        let expected = if i % 2 == 0 || i % 7 == 0 { A } else { D };
        assert_eq!(u.cells()[i], expected);
    }
}

#[test]
fn seed_reduced_example() {
    let u = Universe::with_dimensions(8, 1);
    assert_eq!(u.width(), 8);
    assert_eq!(u.height(), 1);
    assert_eq!(*u.cells(), vec![A, D, A, D, A, D, A, A]);
}

#[test]
fn idx_is_row_major() {
    let u = Universe::with_dimensions(4, 4);
    assert_eq!(u.idx((0, 0)), 0);
    assert_eq!(u.idx((2, 3)), 11);
    assert_eq!(u.idx((3, 0)), 12);
}

#[test]
fn neighbourhood_order_and_wrap() {
    // A vertical line in column 1 of a 4x4 grid, crossing the top edge.
    let mut cells = vec![D; 16];
    for &i in &[13usize, 1, 5] {
        cells[i] = A;
    }
    let u = Universe::from_cells(4, 4, cells);
    // At (0, 1) the north row wraps to row 3, so the north neighbour is the
    // live cell at (3, 1); the south neighbour is the live cell at (1, 1).
    let (cell, neighbours) = u.neighbourhood(0, 1);
    assert_eq!(cell, A);
    assert_eq!(neighbours, [D, A, D, D, D, D, A, D]);
    // At (3, 0) the south row wraps to row 0 and the west column to column 3:
    // the east neighbour is the live cell at (3, 1), the south-east one the
    // live cell at (0, 1).
    let (cell, neighbours) = u.neighbourhood(3, 0);
    assert_eq!(cell, D);
    assert_eq!(neighbours, [D, D, D, D, A, D, D, A]);
}

#[test]
fn isolated_cell_dies() {
    let mut cells = vec![D; 25];
    cells[12] = A;
    let mut u = Universe::from_cells(5, 5, cells);
    u.tick();
    assert_eq!(*u.cells(), vec![D; 25]);
}

#[test]
fn block_is_stable() {
    // A 2x2 block in a 4x4 grid: each live cell has exactly 3 live
    // neighbours, each dead cell at most 2, so nothing changes.
    let mut cells = vec![D; 16];
    for &i in &[5usize, 6, 9, 10] {
        cells[i] = A;
    }
    let before = cells.clone();
    let mut u = Universe::from_cells(4, 4, cells);
    u.tick();
    assert_eq!(*u.cells(), before);
}

#[test]
fn blinker_oscillates() {
    // A horizontal line of three in a 5x5 grid becomes a vertical line of
    // three: the ends die of underpopulation, the cells above and below the
    // middle are born with exactly three live neighbours.
    let mut cells = vec![D; 25];
    for &i in &[0usize, 1, 2] {
        cells[i] = A;
    }
    let mut u = Universe::from_cells(5, 5, cells);
    u.tick();
    let mut expected = vec![D; 25];
    for &i in &[1usize, 6, 21] {
        expected[i] = A;
    }
    assert_eq!(*u.cells(), expected);
}

#[test]
fn blinker_wraps_across_edge() {
    // A vertical line of three crossing the top edge of a 4x4 grid flips to
    // a horizontal line in row 0: toroidal wrap makes (3, 1) adjacent to
    // row 0.
    let mut cells = vec![D; 16];
    for &i in &[13usize, 1, 5] {
        cells[i] = A;
    }
    let mut u = Universe::from_cells(4, 4, cells);
    u.tick();
    let mut expected = vec![D; 16];
    for &i in &[0usize, 1, 2] {
        expected[i] = A;
    }
    assert_eq!(*u.cells(), expected);
}

#[test]
fn overpopulation_kills() {
    // A plus shape in a 5x5 grid: the centre has four live neighbours and
    // dies.
    let mut cells = vec![D; 25];
    for &i in &[12usize, 7, 17, 11, 13] {
        cells[i] = A;
    }
    let mut u = Universe::from_cells(5, 5, cells);
    u.tick();
    assert_eq!(u.cells()[12], D);
}

#[test]
fn tick_is_deterministic() {
    let mut a = Universe::new();
    let mut b = Universe::new();
    for _ in 0..3 {
        a.tick();
        b.tick();
    }
    assert_eq!(*a.cells(), *b.cells());
}

#[test]
fn buffer_size_is_stable() {
    let mut u = Universe::with_dimensions(6, 5);
    for _ in 0..4 {
        u.tick();
        assert_eq!(u.cells().len(), 30);
    }
    let mut big = Universe::new();
    big.tick();
    assert_eq!(big.cells().len(), 128 * 128);
}
