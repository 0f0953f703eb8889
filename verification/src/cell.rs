//! Cell states and the generation-update rule for a single cell.

use vstd::prelude::*;

verus! {

/// One grid position's binary state: alive or dead.
#[derive(Clone, Copy, Debug, PartialEq, Eq, Structural)]
pub enum Cell {
    Dead,
    Alive,
}

impl Cell {
    /// Cheap liveness test on a cell state.
    pub fn is_alive(&self) -> (alive: bool)
        ensures
            alive == (*self is Alive),
    {
        match *self {
            Cell::Alive => true,
            Cell::Dead => false,
        }
    }
}

/// How many cells of `cells` are alive.
pub open spec fn count_alive(cells: Seq<Cell>) -> int
    decreases cells.len(),
{
    if cells.len() == 0 {
        0
    } else {
        count_alive(cells.drop_last()) + (if cells.last() is Alive {
            1int
        } else {
            0int
        })
    }
}

/// Counting one more cell raises the count by one exactly when that cell is alive.
pub proof fn lemma_count_alive_take_step(cells: Seq<Cell>, k: int)
    requires
        0 <= k < cells.len(),
    ensures
        count_alive(cells.take(k + 1)) == count_alive(cells.take(k)) + (if cells[k] is Alive {
            1int
        } else {
            0int
        }),
{
    let taken = cells.take(k + 1);
    assert(taken.drop_last() =~= cells.take(k));
    assert(taken.last() == cells[k]);
}

/// First rule: a live cell with fewer than two live neighbours dies (underpopulation).
pub open spec fn underpopulation(cell: Cell, live: int) -> bool {
    cell is Alive && live < 2
}

/// Second rule: a live cell with two or three live neighbours lives on (stasis).
pub open spec fn stasis(cell: Cell, live: int) -> bool {
    cell is Alive && (live == 2 || live == 3)
}

/// Third rule: a live cell with more than three live neighbours dies (overpopulation).
pub open spec fn overpopulation(cell: Cell, live: int) -> bool {
    cell is Alive && live > 3
}

/// Fourth rule: a dead cell with exactly three live neighbours comes alive (reproduction).
pub open spec fn reproduction(cell: Cell, live: int) -> bool {
    cell is Dead && live == 3
}

/// Fallback: none of the four rules applies and the cell keeps its state.
pub open spec fn otherwise(cell: Cell, live: int) -> bool {
    !underpopulation(cell, live) && !stasis(cell, live) && !overpopulation(cell, live)
        && !reproduction(cell, live)
}

/// The state a cell with `live` live neighbours takes in the next generation,
/// by the ordered rule set: underpopulation, stasis, overpopulation,
/// reproduction, and otherwise unchanged.
pub open spec fn next_state(cell: Cell, live: int) -> Cell {
    if cell is Alive {
        if live < 2 {
            Cell::Dead
        } else if live <= 3 {
            Cell::Alive
        } else {
            Cell::Dead
        }
    } else {
        if live == 3 {
            Cell::Alive
        } else {
            cell
        }
    }
}

/// Rule totality: for every state and live-neighbour count in `[0, 8]`,
/// exactly one rule branch applies, and `next_state` returns that branch's
/// outcome.
pub proof fn lemma_rule_total(cell: Cell, live: int)
    requires
        0 <= live <= 8,
    ensures
        underpopulation(cell, live) || stasis(cell, live) || overpopulation(cell, live)
            || reproduction(cell, live) || otherwise(cell, live),
        underpopulation(cell, live) ==> !stasis(cell, live) && !overpopulation(cell, live)
            && !reproduction(cell, live) && !otherwise(cell, live),
        stasis(cell, live) ==> !underpopulation(cell, live) && !overpopulation(cell, live)
            && !reproduction(cell, live) && !otherwise(cell, live),
        overpopulation(cell, live) ==> !underpopulation(cell, live) && !stasis(cell, live)
            && !reproduction(cell, live) && !otherwise(cell, live),
        reproduction(cell, live) ==> !underpopulation(cell, live) && !stasis(cell, live)
            && !overpopulation(cell, live) && !otherwise(cell, live),
        underpopulation(cell, live) ==> next_state(cell, live) == Cell::Dead,
        stasis(cell, live) ==> next_state(cell, live) == Cell::Alive,
        overpopulation(cell, live) ==> next_state(cell, live) == Cell::Dead,
        reproduction(cell, live) ==> next_state(cell, live) == Cell::Alive,
        otherwise(cell, live) ==> next_state(cell, live) == cell,
{
}

} // verus!
