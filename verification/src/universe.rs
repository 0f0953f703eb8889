//! The Universe: a fixed-dimension, toroidally wrapped Game of Life grid.

use vstd::prelude::*;

use crate::cell::Cell;
use crate::cell::count_alive;
use crate::cell::lemma_count_alive_take_step;
use crate::cell::next_state;
use crate::grid::flat_index;
use crate::grid::wrap_dec;
use crate::grid::wrap_inc;
use crate::grid::lemma_flat_index_coords;
use crate::grid::lemma_flat_index_in_range;
use vstd::arithmetic::mul::lemma_mul_is_commutative;

verus! {

/// The deterministic initial pattern: cell `i` starts alive exactly when `i`
/// is divisible by 2 or by 7.
pub open spec fn seed_cell(i: int) -> Cell {
    if i % 2 == 0 || i % 7 == 0 {
        Cell::Alive
    } else {
        Cell::Dead
    }
}

/// A fixed-size grid of cells, stored flat in row-major order, together with
/// its dimensions. The grid's edges wrap around toroidally.
pub struct Universe {
    width: u32,
    height: u32,
    cells: Vec<Cell>,
}

impl View for Universe {
    type V = Seq<Cell>;

    /// The current generation: the cell buffer, row-major.
    closed spec fn view(&self) -> Seq<Cell> {
        self.cells@
    }
}

impl Universe {
    /// The grid width, as a mathematical integer.
    pub closed spec fn spec_width(self) -> int {
        self.width as int
    }

    /// The grid height, as a mathematical integer.
    pub closed spec fn spec_height(self) -> int {
        self.height as int
    }

    /// Well-formedness: both dimensions are positive and the buffer holds
    /// exactly `width * height` cells.
    pub closed spec fn wf(self) -> bool {
        &&& 1 <= self.width
        &&& 1 <= self.height
        &&& self@.len() == self.spec_width() * self.spec_height()
    }

    /// The cell at in-range coordinates `(row, col)`.
    pub open spec fn cell_at(self, row: int, col: int) -> Cell {
        self@[flat_index(self.spec_width(), row, col)]
    }

    /// The eight neighbours of `(row, col)` under toroidal wraparound, in a
    /// fixed order: the three cells of the row above, the two beside, and the
    /// three of the row below, each left to right.
    pub open spec fn spec_neighbours(self, row: int, col: int) -> Seq<Cell> {
        let north: int = wrap_dec(row, self.spec_height());
        let south: int = wrap_inc(row, self.spec_height());
        let west: int = wrap_dec(col, self.spec_width());
        let east: int = wrap_inc(col, self.spec_width());
        seq![
            self.cell_at(north, west),
            self.cell_at(north, col),
            self.cell_at(north, east),
            self.cell_at(row, west),
            self.cell_at(row, east),
            self.cell_at(south, west),
            self.cell_at(south, col),
            self.cell_at(south, east),
        ]
    }

    /// How many of the eight neighbours of `(row, col)` are alive.
    pub open spec fn live_count(self, row: int, col: int) -> int {
        count_alive(self.spec_neighbours(row, col))
    }

    /// The state the cell at flat position `i` takes in the next generation.
    /// Opaque so that facts stated cell by cell stay cheap; the lemmas and
    /// contracts of this module reveal it where its definition is needed.
    #[verifier::opaque]
    pub open spec fn next_cell_at(self, i: int) -> Cell {
        next_state(self@[i], self.live_count(i / self.spec_width(), i % self.spec_width()))
    }

    /// The whole next generation, as a function of the current one.
    pub open spec fn next_gen(self) -> Seq<Cell> {
        Seq::new(self@.len(), |i: int| self.next_cell_at(i))
    }

    /// Builds the fixed 128 x 128 universe with the deterministic initial
    /// pattern: cell `i` starts alive exactly when `i` is divisible by 2 or
    /// by 7.
    pub fn new() -> (universe: Universe)
        ensures
            universe.wf(),
            universe.spec_width() == 128,
            universe.spec_height() == 128,
            universe@.len() == 128 * 128,
            forall|i: int| 0 <= i < universe@.len() ==> #[trigger] universe@[i] == seed_cell(i),
    {
        Universe::with_dimensions(128, 128)
    }

    /// Builds a universe of the given positive dimensions, seeded with the
    /// same deterministic pattern as `new`: cell `i` starts alive exactly
    /// when `i` is divisible by 2 or by 7.
    #[verifier::loop_isolation(false)]
    pub fn with_dimensions(width: u32, height: u32) -> (universe: Universe)
        requires
            1 <= width,
            1 <= height,
            (width as int) * (height as int) <= usize::MAX as int,
        ensures
            universe.wf(),
            universe.spec_width() == width as int,
            universe.spec_height() == height as int,
            universe@.len() == (width as int) * (height as int),
            forall|i: int| 0 <= i < universe@.len() ==> #[trigger] universe@[i] == seed_cell(i),
    {
        let total: usize = (width as usize) * (height as usize);
        let mut cells: Vec<Cell> = Vec::new();
        let mut i: usize = 0;
        while i < total
            invariant
                i <= total,
                cells@.len() == i as int,
                forall|j: int| 0 <= j < i as int ==> cells@[j] == seed_cell(j),
            decreases total - i,
        {
            let cell: Cell = if i % 2 == 0 || i % 7 == 0 {
                Cell::Alive
            } else {
                Cell::Dead
            };
            cells.push(cell);
            i = i + 1;
        }
        Universe { width, height, cells }
    }

    /// Builds a universe of the given positive dimensions from an explicit
    /// row-major cell buffer of matching length.
    pub fn from_cells(width: u32, height: u32, cells: Vec<Cell>) -> (universe: Universe)
        requires
            1 <= width,
            1 <= height,
            cells@.len() == (width as int) * (height as int),
        ensures
            universe.wf(),
            universe.spec_width() == width as int,
            universe.spec_height() == height as int,
            universe@ == cells@,
    {
        Universe { width, height, cells }
    }

    /// The grid width.
    pub fn width(&self) -> (width: u32)
        ensures
            width as int == self.spec_width(),
    {
        self.width
    }

    /// The grid height.
    pub fn height(&self) -> (height: u32)
        ensures
            height as int == self.spec_height(),
    {
        self.height
    }

    /// A read-only view of the current generation's cell buffer, row-major.
    pub fn cells(&self) -> (cells: &Vec<Cell>)
        ensures
            cells@ == self@,
    {
        &self.cells
    }

    /// Row-major buffer position of the in-range coordinates `coords`.
    pub fn idx(&self, coords: (u32, u32)) -> (i: usize)
        requires
            self.wf(),
            (coords.0 as int) < self.spec_height(),
            (coords.1 as int) < self.spec_width(),
        ensures
            i as int == flat_index(self.spec_width(), coords.0 as int, coords.1 as int),
            i < self@.len(),
    {
        let (row, column) = coords;
        // Reading the length tells the verifier the buffer, and with it every
        // row-major position, fits in usize, so the arithmetic below cannot
        // overflow.
        let buffer_len: usize = self.cells.len();
        proof {
            lemma_flat_index_in_range(
                self.spec_width(),
                self.spec_height(),
                row as int,
                column as int,
            );
        }
        (row as usize) * (self.width as usize) + (column as usize)
    }

    /// The cell at in-range coordinates `(row, col)`.
    fn cell(&self, row: u32, col: u32) -> (cell: Cell)
        requires
            self.wf(),
            (row as int) < self.spec_height(),
            (col as int) < self.spec_width(),
        ensures
            cell == self.cell_at(row as int, col as int),
    {
        let i: usize = self.idx((row, col));
        self.cells[i]
    }

    /// The cell at in-range coordinates `(row, col)` together with its eight
    /// neighbours under toroidal wraparound, read from the current
    /// generation in the fixed order of `spec_neighbours`.
    pub fn neighbourhood(&self, row: u32, col: u32) -> (neighbourhood: (Cell, [Cell; 8]))
        requires
            self.wf(),
            (row as int) < self.spec_height(),
            (col as int) < self.spec_width(),
        ensures
            neighbourhood.0 == self.cell_at(row as int, col as int),
            neighbourhood.1@ == self.spec_neighbours(row as int, col as int),
    {
        let last_row: u32 = self.height - 1;
        let last_col: u32 = self.width - 1;
        let north: u32 = if row == 0 {
            last_row
        } else {
            row - 1
        };
        let south: u32 = if row == last_row {
            0
        } else {
            row + 1
        };
        let west: u32 = if col == 0 {
            last_col
        } else {
            col - 1
        };
        let east: u32 = if col == last_col {
            0
        } else {
            col + 1
        };

        let cell: Cell = self.cell(row, col);
        let neighbour_cells: [Cell; 8] = [
            self.cell(north, west),
            self.cell(north, col),
            self.cell(north, east),
            self.cell(row, west),
            self.cell(row, east),
            self.cell(south, west),
            self.cell(south, col),
            self.cell(south, east),
        ];
        proof {
            assert(neighbour_cells@ =~= self.spec_neighbours(row as int, col as int));
        }
        (cell, neighbour_cells)
    }

    /// The next generation's buffer, computed wholly against the current
    /// one: for every coordinate in row-major order, the rule's outcome for
    /// that cell. The current buffer is never written, so no cell's updated
    /// value is ever read as an input to another cell's update.
    #[verifier::loop_isolation(false)]
    fn compute_next(&self) -> (next: Vec<Cell>)
        requires
            self.wf(),
        ensures
            next@ == self.next_gen(),
    {
        let width: u32 = self.width;
        let height: u32 = self.height;
        let mut next: Vec<Cell> = Vec::new();

        let mut row: u32 = 0;
        while row < height
            invariant
                row <= height,
                next@.len() == (row as int) * (width as int),
                forall|i: int| 0 <= i < next@.len() ==> next@[i] == self.next_cell_at(i),
            decreases height - row,
        {
            let mut col: u32 = 0;
            while col < width
                invariant
                    row < height,
                    col <= width,
                    next@.len() == (row as int) * (width as int) + (col as int),
                    forall|i: int| 0 <= i < next@.len() ==> next@[i] == self.next_cell_at(i),
                decreases width - col,
            {
                let next_cell: Cell = self.next_cell(row, col);
                proof {
                    lemma_flat_index_coords(width as int, row as int, col as int);
                    reveal(Universe::next_cell_at);
                    assert(next_cell == self.next_cell_at(flat_index(
                        width as int,
                        row as int,
                        col as int,
                    )));
                }
                next.push(next_cell);
                col = col + 1;
            }
            proof {
                assert(((row as int) + 1) * (width as int) == (row as int) * (width as int) + (
                width as int)) by (nonlinear_arith);
            }
            row = row + 1;
        }
        proof {
            lemma_mul_is_commutative(height as int, width as int);
            assert(next@ =~= self.next_gen());
        }
        next
    }

    /// The rule's outcome for the cell at in-range coordinates `(row, col)`:
    /// reads the cell and its eight neighbours from the current generation,
    /// counts the live neighbours, and applies the ordered rule set.
    #[verifier::loop_isolation(false)]
    fn next_cell(&self, row: u32, col: u32) -> (cell: Cell)
        requires
            self.wf(),
            (row as int) < self.spec_height(),
            (col as int) < self.spec_width(),
        ensures
            cell == next_state(
                self.cell_at(row as int, col as int),
                self.live_count(row as int, col as int),
            ),
    {
        let (cell, neighbours) = self.neighbourhood(row, col);
        let mut live: usize = 0;
        let mut k: usize = 0;
        while k < 8
            invariant
                k <= 8,
                live <= k,
                live as int == count_alive(
                    self.spec_neighbours(row as int, col as int).take(k as int),
                ),
            decreases 8 - k,
        {
            proof {
                lemma_count_alive_take_step(
                    self.spec_neighbours(row as int, col as int),
                    k as int,
                );
            }
            if neighbours[k].is_alive() {
                live = live + 1;
            }
            k = k + 1;
        }
        proof {
            assert(self.spec_neighbours(row as int, col as int).take(8) =~= self.spec_neighbours(
                row as int,
                col as int,
            ));
            assert(live as int == self.live_count(row as int, col as int));
        }
        if cell.is_alive() {
            if live < 2 {
                Cell::Dead
            } else if live <= 3 {
                Cell::Alive
            } else {
                Cell::Dead
            }
        } else {
            if live == 3 {
                Cell::Alive
            } else {
                cell
            }
        }
    }

    /// Advances the simulation by exactly one generation.
    ///
    /// Every cell of the new buffer is the rule's outcome for the matching
    /// cell of the old buffer and its live-neighbour count there; all counts
    /// are taken against the old generation only. The dimensions and the
    /// buffer length are unchanged.
    pub fn tick(&mut self)
        requires
            old(self).wf(),
        ensures
            final(self).wf(),
            final(self).spec_width() == old(self).spec_width(),
            final(self).spec_height() == old(self).spec_height(),
            final(self)@.len() == old(self)@.len(),
            final(self)@ == old(self).next_gen(),
    {
        let next: Vec<Cell> = self.compute_next();
        self.cells = next;
    }

    /// What the next generation holds at in-range coordinates `(row, col)`:
    /// the rule's outcome for the cell there and its live-neighbour count,
    /// both taken in the current generation.
    pub proof fn lemma_next_gen_at(self, row: int, col: int)
        requires
            self.wf(),
            0 <= row < self.spec_height(),
            0 <= col < self.spec_width(),
        ensures
            self.next_gen()[flat_index(self.spec_width(), row, col)] == next_state(
                self.cell_at(row, col),
                self.live_count(row, col),
            ),
    {
        reveal(Universe::next_cell_at);
        lemma_flat_index_in_range(self.spec_width(), self.spec_height(), row, col);
        lemma_flat_index_coords(self.spec_width(), row, col);
    }

    /// A cell with exactly three live neighbours is alive in the next
    /// generation, whatever its current state: reproduction wakes a dead
    /// cell, stasis keeps a live one.
    pub proof fn lemma_three_live_neighbours_alive(self, row: int, col: int)
        requires
            self.wf(),
            0 <= row < self.spec_height(),
            0 <= col < self.spec_width(),
            self.live_count(row, col) == 3,
        ensures
            self.next_gen()[flat_index(self.spec_width(), row, col)] == Cell::Alive,
    {
        self.lemma_next_gen_at(row, col);
    }

    /// Determinism: two universes with the same dimensions and the same cell
    /// buffer have the same next generation.
    pub proof fn lemma_next_gen_deterministic(self, other: Universe)
        requires
            self.spec_width() == other.spec_width(),
            self.spec_height() == other.spec_height(),
            self@ == other@,
        ensures
            self.next_gen() == other.next_gen(),
    {
        assert forall|i: int| 0 <= i < self@.len() implies self.next_cell_at(i)
            == other.next_cell_at(i) by {
            reveal(Universe::next_cell_at);
            let row: int = i / self.spec_width();
            let col: int = i % self.spec_width();
            assert(self.spec_neighbours(row, col) =~= other.spec_neighbours(row, col));
        }
        assert(self.next_gen() =~= other.next_gen());
    }
}
} // verus!
