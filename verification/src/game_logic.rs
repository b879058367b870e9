//! The game on the fixed grid of `ROWS` by `COLS` cells.

use crate::laws::law_births_and_deaths_apart;
use crate::rules::{
    is_birth_list, is_death_list, live_neighbours, one_if_alive, share_no_cell, toggled,
    with_state,
};
use crate::scan::{
    lemma_listed_all, lemma_listed_next_row, lemma_listed_none, lemma_listed_one_more,
    listed_so_far,
};
use crate::utils::{is_different_cell, is_position_valid};
use crate::{ALIVE, COLS, DEAD, ROWS};
use vstd::prelude::*;

verus! {

/// The fixed grid as a sequence of rows.
pub open spec fn grid_of(matrix: [[bool; COLS]; ROWS]) -> Seq<Seq<bool>> {
    Seq::new(ROWS as nat, |r: int| matrix@[r]@)
}

/// A list of `(row, column)` pairs as mathematical positions.
pub open spec fn coords(cells: Seq<(usize, usize)>) -> Seq<(int, int)> {
    cells.map_values(|cell: (usize, usize)| (cell.0 as int, cell.1 as int))
}

/// Every pair of `cells` names a cell of the fixed grid.
pub open spec fn all_on_grid(cells: Seq<(usize, usize)>) -> bool {
    forall|i: int| 0 <= i < cells.len() ==> (#[trigger] cells[i]).0 < ROWS && cells[i].1 < COLS
}

/// What the position `(r, c)` adds to the neighbour count of the cell at
/// `(row, col)`: the cell itself adds nothing.
spec fn counted(grid: Seq<Seq<bool>>, row: int, col: int, r: int, c: int) -> int {
    if r == row && c == col {
        0
    } else {
        one_if_alive(grid, r, c)
    }
}

/// The count over row `r` for the column offsets below `offset`.
spec fn counted_in_row(grid: Seq<Seq<bool>>, row: int, col: int, r: int, offset: int) -> int {
    (if offset > -1 {
        counted(grid, row, col, r, col - 1)
    } else {
        0
    }) + (if offset > 0 {
        counted(grid, row, col, r, col)
    } else {
        0
    }) + (if offset > 1 {
        counted(grid, row, col, r, col + 1)
    } else {
        0
    })
}

/// The count over the whole rows with row offsets below `offset`.
spec fn counted_in_rows(grid: Seq<Seq<bool>>, row: int, col: int, offset: int) -> int {
    (if offset > -1 {
        counted_in_row(grid, row, col, row - 1, 2)
    } else {
        0
    }) + (if offset > 0 {
        counted_in_row(grid, row, col, row, 2)
    } else {
        0
    }) + (if offset > 1 {
        counted_in_row(grid, row, col, row + 1, 2)
    } else {
        0
    })
}

/// Counts the live cells among the eight neighbours of the cell in column
/// `col_i` of row `row_i`. Neighbours beyond the border do not exist, and
/// the cell itself is no neighbour.
pub fn check_cell_alive_neighbours(
    col_i: usize,
    row_i: usize,
    matrix: &[[bool; COLS]; ROWS],
) -> (alive_neighbours: i32)
    requires
        row_i < ROWS,
        col_i < COLS,
    ensures
        alive_neighbours == live_neighbours(grid_of(*matrix), row_i as int, col_i as int),
        0 <= alive_neighbours <= 8,
{
    let ghost grid = grid_of(*matrix);
    let ghost row = row_i as int;
    let ghost col = col_i as int;
    let mut alive_neighbours: i32 = 0;
    // Converted once, ahead of the loops.
    let parsed_row_i: i8 = row_i as i8;
    let parsed_col_i: i8 = col_i as i8;

    // Three rows and three columns around the cell.
    for row_offset in -1i8..2i8
        invariant
            parsed_row_i == row,
            parsed_col_i == col,
            0 <= row < ROWS,
            0 <= col < COLS,
            grid == grid_of(*matrix),
            alive_neighbours == counted_in_rows(grid, row, col, row_offset as int),
    {
        let row_to_check: i8 = parsed_row_i + row_offset;
        for col_offset in -1i8..2i8
            invariant
                parsed_row_i == row,
                parsed_col_i == col,
                0 <= row < ROWS,
                0 <= col < COLS,
                -1 <= row_offset <= 1,
                row_to_check == row + row_offset,
                grid == grid_of(*matrix),
                alive_neighbours == counted_in_rows(grid, row, col, row_offset as int)
                    + counted_in_row(grid, row, col, row + row_offset, col_offset as int),
        {
            let col_to_check: i8 = parsed_col_i + col_offset;

            if is_position_valid(row_to_check, col_to_check) && is_different_cell(
                parsed_row_i,
                parsed_col_i,
                row_to_check,
                col_to_check,
            ) {
                let cell_to_check = matrix[row_to_check as usize][col_to_check as usize];

                if cell_to_check == ALIVE {
                    alive_neighbours += 1;
                }
            }
        }
    }

    alive_neighbours
}

/// Sets every cell listed in `cells` to `state` and leaves the others as
/// they are.
pub fn manage_cell_state(
    cells: Vec<(usize, usize)>,
    state: bool,
    matrix: &mut [[bool; COLS]; ROWS],
)
    requires
        all_on_grid(cells@),
    ensures
        grid_of(*final(matrix)) == with_state(grid_of(*old(matrix)), coords(cells@), state),
{
    let ghost before = grid_of(*matrix);
    assert(grid_of(*matrix) =~~= with_state(before, coords(cells@.take(0)), state));
    for i in 0..cells.len()
        invariant
            before == grid_of(*old(matrix)),
            all_on_grid(cells@),
            grid_of(*matrix) == with_state(before, coords(cells@.take(i as int)), state),
    {
        let (row_i, col_i) = cells[i];
        let ghost prev = grid_of(*matrix);
        matrix[row_i][col_i] = state;
        proof {
            let done = coords(cells@.take(i as int));
            let cell = (row_i as int, col_i as int);
            assert(grid_of(*matrix) =~~= prev.update(cell.0, prev[cell.0].update(cell.1, state)));
            assert(coords(cells@.take(i + 1)) =~= done.push(cell));
            assert forall|r: int, c: int|
                done.push(cell).contains((r, c)) <==> (done.contains((r, c)) || (r, c)
                    == cell) by {
                vstd::seq_lib::lemma_seq_contains_after_push(done, cell, (r, c));
            }
            assert(grid_of(*matrix) =~~= with_state(before, done.push(cell), state));
        }
    }
    assert(cells@.take(cells@.len() as int) =~= cells@);
}

/// Finds the cells that change in the next generation: first those that are
/// born, then those that die. Every cell is judged against the grid as it
/// stands, and each list names its cells row by row, left to right. No cell
/// stands in both lists.
pub fn check_cell_state(matrix: &[[bool; COLS]; ROWS]) -> (changes: (Vec<(usize, usize)>, Vec<(usize, usize)>))
    ensures
        is_birth_list(grid_of(*matrix), coords(changes.0@)),
        is_death_list(grid_of(*matrix), coords(changes.1@)),
        share_no_cell(coords(changes.0@), coords(changes.1@)),
        all_on_grid(changes.0@),
        all_on_grid(changes.1@),
{
    let ghost grid = grid_of(*matrix);
    let mut cells_to_revive: Vec<(usize, usize)> = Vec::new();
    let mut cells_to_kill: Vec<(usize, usize)> = Vec::new();
    proof {
        lemma_listed_none(grid);
        assert(coords(cells_to_revive@) =~= Seq::empty());
        assert(coords(cells_to_kill@) =~= Seq::empty());
    }

    for row_i in 0..ROWS
        invariant
            grid == grid_of(*matrix),
            listed_so_far(
                grid,
                coords(cells_to_revive@),
                coords(cells_to_kill@),
                (row_i as int, 0),
            ),
    {
        for col_i in 0..COLS
            invariant
                row_i < ROWS,
                grid == grid_of(*matrix),
                listed_so_far(
                    grid,
                    coords(cells_to_revive@),
                    coords(cells_to_kill@),
                    (row_i as int, col_i as int),
                ),
        {
            let cell = matrix[row_i][col_i];
            let alive_neighbours = check_cell_alive_neighbours(col_i, row_i, matrix);
            let ghost births = coords(cells_to_revive@);
            let ghost deaths = coords(cells_to_kill@);
            let ghost here = (row_i as int, col_i as int);

            if cell == DEAD && alive_neighbours == 3 {
                cells_to_revive.push((row_i, col_i));
                assert(coords(cells_to_revive@) =~= births.push(here));
            } else if cell == ALIVE && (alive_neighbours < 2 || alive_neighbours > 3) {
                cells_to_kill.push((row_i, col_i));
                assert(coords(cells_to_kill@) =~= deaths.push(here));
            }
            proof {
                lemma_listed_one_more(
                    grid,
                    births,
                    deaths,
                    here,
                    coords(cells_to_revive@),
                    coords(cells_to_kill@),
                );
            }
        }
        proof {
            lemma_listed_next_row(
                grid,
                coords(cells_to_revive@),
                coords(cells_to_kill@),
                row_i as int,
                COLS as int,
            );
        }
    }
    proof {
        let births = coords(cells_to_revive@);
        let deaths = coords(cells_to_kill@);
        lemma_listed_all(grid, births, deaths, ROWS as int);
        law_births_and_deaths_apart(grid, births, deaths);
        assert forall|i: int| 0 <= i < births.len() implies (#[trigger] cells_to_revive@[i]).0
            < ROWS && cells_to_revive@[i].1 < COLS by {
            assert(births.contains((births[i].0, births[i].1)));
        }
        assert forall|i: int| 0 <= i < deaths.len() implies (#[trigger] cells_to_kill@[i]).0
            < ROWS && cells_to_kill@[i].1 < COLS by {
            assert(deaths.contains((deaths[i].0, deaths[i].1)));
        }
    }
    (cells_to_revive, cells_to_kill)
}

/// Flips the state of the cell in row `row_i`, column `col_i`.
pub fn change_cell_state(row_i: usize, col_i: usize, matrix: &mut [[bool; COLS]; ROWS])
    requires
        row_i < ROWS,
        col_i < COLS,
    ensures
        grid_of(*final(matrix)) == toggled(grid_of(*old(matrix)), row_i as int, col_i as int),
{
    let curr_state = matrix[row_i][col_i];
    let new_state = if curr_state == ALIVE {
        DEAD
    } else {
        ALIVE
    };
    matrix[row_i][col_i] = new_state;
    assert(grid_of(*matrix) =~~= toggled(grid_of(*old(matrix)), row_i as int, col_i as int));
}

} // verus!
