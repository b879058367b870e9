//! The rule of the game, stated over a grid as a sequence of rows.
//!
//! A grid is a `Seq<Seq<bool>>`: `grid[row][col]` is `true` where the cell
//! lives. Positions outside the grid hold no cell and never count as alive;
//! the grid has no wraparound.

use vstd::prelude::*;

verus! {

/// The position `(row, col)` holds a cell of `grid`.
pub open spec fn in_grid(grid: Seq<Seq<bool>>, row: int, col: int) -> bool {
    0 <= row < grid.len() && 0 <= col < grid[row].len()
}

/// Every row of `grid` has `cols` cells, and there are `rows` of them.
pub open spec fn has_shape(grid: Seq<Seq<bool>>, rows: int, cols: int) -> bool {
    &&& grid.len() == rows
    &&& forall|r: int| 0 <= r < rows ==> (#[trigger] grid[r]).len() == cols
}

/// The position `(row, col)` holds a live cell.
pub open spec fn alive_at(grid: Seq<Seq<bool>>, row: int, col: int) -> bool {
    in_grid(grid, row, col) && grid[row][col]
}

/// 1 where `(row, col)` holds a live cell, 0 where it holds a dead one or none.
pub open spec fn one_if_alive(grid: Seq<Seq<bool>>, row: int, col: int) -> int {
    if alive_at(grid, row, col) {
        1
    } else {
        0
    }
}

/// How many of the eight positions around `(row, col)` hold a live cell.
pub open spec fn live_neighbours(grid: Seq<Seq<bool>>, row: int, col: int) -> int {
    one_if_alive(grid, row - 1, col - 1) + one_if_alive(grid, row - 1, col)
        + one_if_alive(grid, row - 1, col + 1) + one_if_alive(grid, row, col - 1)
        + one_if_alive(grid, row, col + 1) + one_if_alive(grid, row + 1, col - 1)
        + one_if_alive(grid, row + 1, col) + one_if_alive(grid, row + 1, col + 1)
}

/// Birth: a dead cell with exactly three live neighbours.
pub open spec fn is_born(grid: Seq<Seq<bool>>, row: int, col: int) -> bool {
    in_grid(grid, row, col) && !grid[row][col] && live_neighbours(grid, row, col) == 3
}

/// Death: a live cell with fewer than two or more than three live neighbours.
pub open spec fn dies(grid: Seq<Seq<bool>>, row: int, col: int) -> bool {
    in_grid(grid, row, col) && grid[row][col] && (live_neighbours(grid, row, col) < 2
        || live_neighbours(grid, row, col) > 3)
}

/// The state of the cell at `(row, col)` one generation after `grid`.
pub open spec fn alive_next(grid: Seq<Seq<bool>>, row: int, col: int) -> bool {
    if grid[row][col] {
        live_neighbours(grid, row, col) == 2 || live_neighbours(grid, row, col) == 3
    } else {
        live_neighbours(grid, row, col) == 3
    }
}

/// The grid one generation after `grid`: every cell judged against `grid` itself.
pub open spec fn next_generation(grid: Seq<Seq<bool>>) -> Seq<Seq<bool>> {
    Seq::new(
        grid.len(),
        |r: int| Seq::new(grid[r].len(), |c: int| alive_next(grid, r, c)),
    )
}

/// The grid `count` generations after `grid`.
pub open spec fn after_generations(grid: Seq<Seq<bool>>, count: nat) -> Seq<Seq<bool>>
    decreases count,
{
    if count == 0 {
        grid
    } else {
        next_generation(after_generations(grid, (count - 1) as nat))
    }
}

/// `grid` with the cells listed in `cells` set to `state` and all others kept.
pub open spec fn with_state(grid: Seq<Seq<bool>>, cells: Seq<(int, int)>, state: bool) -> Seq<
    Seq<bool>,
> {
    Seq::new(
        grid.len(),
        |r: int|
            Seq::new(
                grid[r].len(),
                |c: int|
                    if cells.contains((r, c)) {
                        state
                    } else {
                        grid[r][c]
                    },
            ),
    )
}

/// `grid` with the one cell at `(row, col)` flipped.
pub open spec fn toggled(grid: Seq<Seq<bool>>, row: int, col: int) -> Seq<Seq<bool>> {
    grid.update(row, grid[row].update(col, !grid[row][col]))
}

/// `a` comes before `b` when the grid is read row by row, left to right.
pub open spec fn reads_before(a: (int, int), b: (int, int)) -> bool {
    a.0 < b.0 || (a.0 == b.0 && a.1 < b.1)
}

/// The positions of `cells` come in reading order, none twice.
pub open spec fn in_reading_order(cells: Seq<(int, int)>) -> bool {
    forall|i: int, j: int| 0 <= i < j < cells.len() ==> reads_before(cells[i], cells[j])
}

/// `cells` lists, in reading order and once each, exactly the cells of `grid`
/// that are born in the next generation.
pub open spec fn is_birth_list(grid: Seq<Seq<bool>>, cells: Seq<(int, int)>) -> bool {
    &&& in_reading_order(cells)
    &&& forall|r: int, c: int| #[trigger] cells.contains((r, c)) <==> is_born(grid, r, c)
}

/// `cells` lists, in reading order and once each, exactly the cells of `grid`
/// that die in the next generation.
pub open spec fn is_death_list(grid: Seq<Seq<bool>>, cells: Seq<(int, int)>) -> bool {
    &&& in_reading_order(cells)
    &&& forall|r: int, c: int| #[trigger] cells.contains((r, c)) <==> dies(grid, r, c)
}

/// `cells` with `(row, col)` added at the end where that position lies inside
/// a square grid of `dimension` rows and columns.
pub open spec fn kept_if_inside(cells: Seq<(int, int)>, row: int, col: int, dimension: int) -> Seq<
    (int, int),
> {
    if 0 <= row < dimension && 0 <= col < dimension {
        cells.push((row, col))
    } else {
        cells
    }
}

/// The positions around `(row, col)` that lie inside a square grid of
/// `dimension` rows and columns, in reading order.
pub open spec fn neighbours_within(row: int, col: int, dimension: int) -> Seq<(int, int)> {
    let cells = Seq::<(int, int)>::empty();
    let cells = kept_if_inside(cells, row - 1, col - 1, dimension);
    let cells = kept_if_inside(cells, row - 1, col, dimension);
    let cells = kept_if_inside(cells, row - 1, col + 1, dimension);
    let cells = kept_if_inside(cells, row, col - 1, dimension);
    let cells = kept_if_inside(cells, row, col + 1, dimension);
    let cells = kept_if_inside(cells, row + 1, col - 1, dimension);
    let cells = kept_if_inside(cells, row + 1, col, dimension);
    let cells = kept_if_inside(cells, row + 1, col + 1, dimension);
    cells
}

/// How many of the positions listed in `cells` hold a live cell of `grid`.
pub open spec fn live_among(grid: Seq<Seq<bool>>, cells: Seq<(int, int)>) -> int
    decreases cells.len(),
{
    if cells.len() == 0 {
        0
    } else {
        live_among(grid, cells.drop_last()) + one_if_alive(grid, cells.last().0, cells.last().1)
    }
}

/// 1 where `(row, col)` lies inside a grid of `rows` by `cols` cells, else 0.
pub open spec fn one_if_inside(rows: int, cols: int, row: int, col: int) -> int {
    if 0 <= row < rows && 0 <= col < cols {
        1
    } else {
        0
    }
}

/// How many of the eight positions around `(row, col)` lie inside a grid of
/// `rows` by `cols` cells.
pub open spec fn neighbour_positions(rows: int, cols: int, row: int, col: int) -> int {
    one_if_inside(rows, cols, row - 1, col - 1) + one_if_inside(rows, cols, row - 1, col)
        + one_if_inside(rows, cols, row - 1, col + 1) + one_if_inside(rows, cols, row, col - 1)
        + one_if_inside(rows, cols, row, col + 1) + one_if_inside(rows, cols, row + 1, col - 1)
        + one_if_inside(rows, cols, row + 1, col) + one_if_inside(rows, cols, row + 1, col + 1)
}

/// No position stands in both lists.
pub open spec fn share_no_cell(first: Seq<(int, int)>, second: Seq<(int, int)>) -> bool {
    forall|i: int, j: int| 0 <= i < first.len() && 0 <= j < second.len() ==> first[i] != second[j]
}

} // verus!
