//! What holds of every grid.

use crate::rules::{
    after_generations, dies, has_shape, in_grid, in_reading_order, is_birth_list, is_born,
    is_death_list, kept_if_inside, live_among, live_neighbours, neighbour_positions,
    neighbours_within, next_generation, one_if_alive, reads_before, share_no_cell, toggled,
    with_state,
};
use vstd::prelude::*;

verus! {

/// Adding one position to a list adds to the live count what that position
/// holds, and a position beyond `dimension` holds nothing of a grid that
/// fits inside it.
proof fn lemma_kept_counted(
    grid: Seq<Seq<bool>>,
    cells: Seq<(int, int)>,
    row: int,
    col: int,
    dimension: int,
)
    requires
        grid.len() <= dimension,
        forall|r: int| 0 <= r < grid.len() ==> (#[trigger] grid[r]).len() <= dimension,
    ensures
        live_among(grid, kept_if_inside(cells, row, col, dimension)) == live_among(grid, cells)
            + one_if_alive(grid, row, col),
{
    if 0 <= row < dimension && 0 <= col < dimension {
        assert(cells.push((row, col)).drop_last() =~= cells);
    }
}

/// A position has at most eight neighbours.
pub proof fn law_neighbours_at_most_eight(row: int, col: int, dimension: int)
    ensures
        neighbours_within(row, col, dimension).len() <= 8,
{
}

/// The neighbours of a position come in reading order, each inside the
/// square and next to the position, and the position itself is none of them.
pub proof fn law_neighbours_lie_around(row: int, col: int, dimension: int)
    ensures
        in_reading_order(neighbours_within(row, col, dimension)),
        forall|i: int|
            0 <= i < neighbours_within(row, col, dimension).len() ==> {
                let near = #[trigger] neighbours_within(row, col, dimension)[i];
                &&& near != (row, col)
                &&& 0 <= near.0 < dimension
                &&& 0 <= near.1 < dimension
                &&& row - 1 <= near.0 <= row + 1
                &&& col - 1 <= near.1 <= col + 1
            },
{
}

/// Counting the live cells among the neighbours that lie inside a square of
/// `dimension` rows and columns gives the live neighbour count of any grid
/// that fits inside that square.
pub proof fn law_neighbours_give_the_count(grid: Seq<Seq<bool>>, row: int, col: int, dimension: int)
    requires
        grid.len() <= dimension,
        forall|r: int| 0 <= r < grid.len() ==> (#[trigger] grid[r]).len() <= dimension,
    ensures
        live_among(grid, neighbours_within(row, col, dimension)) == live_neighbours(grid, row, col),
{
    let c0 = Seq::<(int, int)>::empty();
    let c1 = kept_if_inside(c0, row - 1, col - 1, dimension);
    let c2 = kept_if_inside(c1, row - 1, col, dimension);
    let c3 = kept_if_inside(c2, row - 1, col + 1, dimension);
    let c4 = kept_if_inside(c3, row, col - 1, dimension);
    let c5 = kept_if_inside(c4, row, col + 1, dimension);
    let c6 = kept_if_inside(c5, row + 1, col - 1, dimension);
    let c7 = kept_if_inside(c6, row + 1, col, dimension);
    lemma_kept_counted(grid, c0, row - 1, col - 1, dimension);
    lemma_kept_counted(grid, c1, row - 1, col, dimension);
    lemma_kept_counted(grid, c2, row - 1, col + 1, dimension);
    lemma_kept_counted(grid, c3, row, col - 1, dimension);
    lemma_kept_counted(grid, c4, row, col + 1, dimension);
    lemma_kept_counted(grid, c5, row + 1, col - 1, dimension);
    lemma_kept_counted(grid, c6, row + 1, col, dimension);
    lemma_kept_counted(grid, c7, row + 1, col + 1, dimension);
}

/// One generation. Setting the cells that die to dead and the cells that are
/// born to alive, in either order, leaves each cell alive exactly where it
/// was alive with two or three live neighbours, or dead with exactly three.
pub proof fn law_changes_give_next_generation(
    grid: Seq<Seq<bool>>,
    births: Seq<(int, int)>,
    deaths: Seq<(int, int)>,
)
    requires
        is_birth_list(grid, births),
        is_death_list(grid, deaths),
    ensures
        with_state(with_state(grid, deaths, false), births, true) == next_generation(grid),
        with_state(with_state(grid, births, true), deaths, false) == next_generation(grid),
        forall|r: int, c: int|
            in_grid(grid, r, c) ==> (#[trigger] next_generation(grid)[r][c] <==> {
                ||| grid[r][c] && live_neighbours(grid, r, c) == 2
                ||| grid[r][c] && live_neighbours(grid, r, c) == 3
                ||| !grid[r][c] && live_neighbours(grid, r, c) == 3
            }),
{
    let kill_first = with_state(with_state(grid, deaths, false), births, true);
    let revive_first = with_state(with_state(grid, births, true), deaths, false);
    assert(kill_first =~~= next_generation(grid));
    assert(revive_first =~~= next_generation(grid));
}

/// No cell is both born and killed in one generation.
pub proof fn law_births_and_deaths_apart(
    grid: Seq<Seq<bool>>,
    births: Seq<(int, int)>,
    deaths: Seq<(int, int)>,
)
    requires
        is_birth_list(grid, births),
        is_death_list(grid, deaths),
    ensures
        share_no_cell(births, deaths),
        forall|r: int, c: int| !(births.contains((r, c)) && deaths.contains((r, c))),
{
    assert forall|i: int, j: int| 0 <= i < births.len() && 0 <= j < deaths.len() implies births[i]
        != deaths[j] by {
        let cell = births[i];
        if cell == deaths[j] {
            assert(births.contains((cell.0, cell.1)));
            assert(deaths.contains((cell.0, cell.1)));
        }
    }
    assert forall|r: int, c: int| !(births.contains((r, c)) && deaths.contains((r, c))) by {
        assert(births.contains((r, c)) <==> is_born(grid, r, c));
        assert(deaths.contains((r, c)) <==> dies(grid, r, c));
    }
}

/// The neighbour count of a cell does not depend on the state of the cell
/// itself.
pub proof fn law_count_leaves_out_the_cell(grid: Seq<Seq<bool>>, row: int, col: int)
    requires
        in_grid(grid, row, col),
    ensures
        live_neighbours(toggled(grid, row, col), row, col) == live_neighbours(grid, row, col),
{
}

/// The neighbour count takes in no position outside the grid: it is at most
/// the number of surrounding positions that the grid holds, which is never
/// above eight.
pub proof fn law_count_stays_inside(grid: Seq<Seq<bool>>, rows: int, cols: int, row: int, col: int)
    requires
        has_shape(grid, rows, cols),
    ensures
        0 <= live_neighbours(grid, row, col) <= neighbour_positions(rows, cols, row, col) <= 8,
{
}

/// Flipping the same cell twice gives the grid back.
pub proof fn law_toggle_twice_restores(grid: Seq<Seq<bool>>, row: int, col: int)
    requires
        in_grid(grid, row, col),
    ensures
        toggled(toggled(grid, row, col), row, col) == grid,
{
    assert(toggled(toggled(grid, row, col), row, col) =~~= grid);
}

/// In a list in reading order, every position before the last one reads
/// before it, so the last one stands nowhere else.
proof fn lemma_front_of_ordered(cells: Seq<(int, int)>)
    requires
        in_reading_order(cells),
        cells.len() > 0,
    ensures
        in_reading_order(cells.drop_last()),
        forall|r: int, c: int| #[trigger]
            cells.drop_last().contains((r, c)) <==> cells.contains((r, c)) && (r, c)
                != cells.last(),
{
    let front = cells.drop_last();
    assert forall|r: int, c: int| #[trigger]
        front.contains((r, c)) <==> cells.contains((r, c)) && (r, c) != cells.last() by {
        if front.contains((r, c)) {
            let i = choose|i: int| 0 <= i < front.len() && front[i] == (r, c);
            assert(cells[i] == (r, c));
            assert(reads_before(cells[i], cells[cells.len() - 1]));
        }
        if cells.contains((r, c)) && (r, c) != cells.last() {
            let i = choose|i: int| 0 <= i < cells.len() && cells[i] == (r, c);
            assert(front[i] == (r, c));
        }
    }
}

/// The last position of a list in reading order is the last of any other
/// such list that names the same cells.
proof fn lemma_same_last(first: Seq<(int, int)>, second: Seq<(int, int)>)
    requires
        in_reading_order(first),
        in_reading_order(second),
        forall|r: int, c: int| #[trigger] first.contains((r, c)) <==> second.contains((r, c)),
        first.len() > 0,
    ensures
        second.len() > 0,
        first.last() == second.last(),
{
    let end = first.last();
    assert(first.contains((end.0, end.1)));
    assert(second.contains((end.0, end.1)));
    let j = choose|j: int| 0 <= j < second.len() && second[j] == end;
    let other = second.last();
    assert(second.contains((other.0, other.1)));
    assert(first.contains((other.0, other.1)));
    let i = choose|i: int| 0 <= i < first.len() && first[i] == other;
    if j < second.len() - 1 {
        assert(reads_before(second[j], second[second.len() - 1]));
        if i < first.len() - 1 {
            assert(reads_before(first[i], first[first.len() - 1]));
        }
    }
}

/// Two lists in reading order that name the same cells are the same list:
/// what a birth list or a death list holds is fixed by the grid.
pub proof fn law_reading_order_fixes_the_list(first: Seq<(int, int)>, second: Seq<(int, int)>)
    requires
        in_reading_order(first),
        in_reading_order(second),
        forall|r: int, c: int| #[trigger] first.contains((r, c)) <==> second.contains((r, c)),
    ensures
        first == second,
    decreases first.len(),
{
    if first.len() == 0 {
        if second.len() > 0 {
            let cell = second[0];
            assert(second.contains((cell.0, cell.1)));
            assert(first.contains((cell.0, cell.1)));
        }
        assert(first =~= second);
    } else {
        lemma_same_last(first, second);
        lemma_front_of_ordered(first);
        lemma_front_of_ordered(second);
        law_reading_order_fixes_the_list(first.drop_last(), second.drop_last());
        assert(first =~= first.drop_last().push(first.last()));
        assert(second =~= second.drop_last().push(second.last()));
    }
}

/// A live cell with fewer than two live neighbours is dead one generation
/// later.
pub proof fn law_lonely_cell_dies(grid: Seq<Seq<bool>>, row: int, col: int)
    requires
        in_grid(grid, row, col),
        grid[row][col],
        live_neighbours(grid, row, col) < 2,
    ensures
        !next_generation(grid)[row][col],
{
}

/// A grid that is its own next generation stays as it is for ever.
pub proof fn law_still_grid_stays(grid: Seq<Seq<bool>>, count: nat)
    requires
        next_generation(grid) == grid,
    ensures
        after_generations(grid, count) == grid,
    decreases count,
{
    if count > 0 {
        law_still_grid_stays(grid, (count - 1) as nat);
    }
}

/// A grid that is itself again after two generations is itself again after
/// every even number of them.
pub proof fn law_period_two_returns(grid: Seq<Seq<bool>>, count: nat)
    requires
        next_generation(next_generation(grid)) == grid,
    ensures
        after_generations(grid, 2 * count) == grid,
    decreases count,
{
    if count > 0 {
        law_period_two_returns(grid, (count - 1) as nat);
        assert(after_generations(grid, 2 * count) == next_generation(
            after_generations(grid, (2 * count - 1) as nat),
        ));
        assert(after_generations(grid, (2 * count - 1) as nat) == next_generation(
            after_generations(grid, (2 * (count - 1)) as nat),
        ));
    }
}

/// A grid whose only live cells form a block of two by two is its own next
/// generation, and so stays as it is for ever.
pub proof fn law_block_is_stable(grid: Seq<Seq<bool>>, rows: int, cols: int, top: int, left: int)
    requires
        has_shape(grid, rows, cols),
        0 <= top,
        top + 1 < rows,
        0 <= left,
        left + 1 < cols,
        forall|r: int, c: int|
            0 <= r < rows && 0 <= c < cols ==> (#[trigger] grid[r][c] <==> top <= r <= top + 1
                && left <= c <= left + 1),
    ensures
        next_generation(grid) == grid,
        forall|count: nat| #[trigger] after_generations(grid, count) == grid,
{
    assert(next_generation(grid) =~~= grid);
    assert forall|count: nat| #[trigger] after_generations(grid, count) == grid by {
        law_still_grid_stays(grid, count);
    }
}

/// A grid whose only live cells are three in a row, away from the border,
/// has in the next generation three in a column about the same centre, and
/// is itself again one generation later.
pub proof fn law_blinker_has_period_two(
    grid: Seq<Seq<bool>>,
    rows: int,
    cols: int,
    row: int,
    col: int,
)
    requires
        has_shape(grid, rows, cols),
        1 <= row,
        row + 1 < rows,
        1 <= col,
        col + 1 < cols,
        forall|r: int, c: int|
            0 <= r < rows && 0 <= c < cols ==> (#[trigger] grid[r][c] <==> r == row && col - 1
                <= c <= col + 1),
    ensures
        has_shape(next_generation(grid), rows, cols),
        forall|r: int, c: int|
            0 <= r < rows && 0 <= c < cols ==> (#[trigger] next_generation(grid)[r][c] <==> c
                == col && row - 1 <= r <= row + 1),
        next_generation(next_generation(grid)) == grid,
{
    assert(next_generation(next_generation(grid)) =~~= grid);
}

} // verus!
