//! What holds while a grid is scanned cell by cell in reading order.

use crate::rules::{
    dies, in_reading_order, is_birth_list, is_born, is_death_list, reads_before,
};
use vstd::prelude::*;

verus! {

/// The scan stands before the position `at`: `births` and `deaths` list, in
/// reading order, exactly the cells before `at` that are born and that die.
pub open spec fn listed_so_far(
    grid: Seq<Seq<bool>>,
    births: Seq<(int, int)>,
    deaths: Seq<(int, int)>,
    at: (int, int),
) -> bool {
    &&& in_reading_order(births)
    &&& in_reading_order(deaths)
    &&& forall|i: int| 0 <= i < births.len() ==> reads_before(#[trigger] births[i], at)
    &&& forall|i: int| 0 <= i < deaths.len() ==> reads_before(#[trigger] deaths[i], at)
    &&& forall|r: int, c: int| #[trigger]
        births.contains((r, c)) <==> is_born(grid, r, c) && reads_before((r, c), at)
    &&& forall|r: int, c: int| #[trigger]
        deaths.contains((r, c)) <==> dies(grid, r, c) && reads_before((r, c), at)
}

/// Before the first cell nothing is listed.
pub proof fn lemma_listed_none(grid: Seq<Seq<bool>>)
    ensures
        listed_so_far(grid, Seq::empty(), Seq::empty(), (0, 0)),
{
}

/// The scan passes the cell `here`, which joins the list that its fate names.
pub proof fn lemma_listed_one_more(
    grid: Seq<Seq<bool>>,
    births: Seq<(int, int)>,
    deaths: Seq<(int, int)>,
    here: (int, int),
    births_after: Seq<(int, int)>,
    deaths_after: Seq<(int, int)>,
)
    requires
        listed_so_far(grid, births, deaths, here),
        births_after == if is_born(grid, here.0, here.1) {
            births.push(here)
        } else {
            births
        },
        deaths_after == if dies(grid, here.0, here.1) {
            deaths.push(here)
        } else {
            deaths
        },
    ensures
        listed_so_far(grid, births_after, deaths_after, (here.0, here.1 + 1)),
{
    let next = (here.0, here.1 + 1);
    assert forall|r: int, c: int| #[trigger]
        births_after.contains((r, c)) <==> is_born(grid, r, c) && reads_before((r, c), next) by {
        vstd::seq_lib::lemma_seq_contains_after_push(births, here, (r, c));
    }
    assert forall|r: int, c: int| #[trigger]
        deaths_after.contains((r, c)) <==> dies(grid, r, c) && reads_before((r, c), next) by {
        vstd::seq_lib::lemma_seq_contains_after_push(deaths, here, (r, c));
    }
}

/// The scan has passed the last cell of row `row` and stands before the next row.
pub proof fn lemma_listed_next_row(
    grid: Seq<Seq<bool>>,
    births: Seq<(int, int)>,
    deaths: Seq<(int, int)>,
    row: int,
    cols: int,
)
    requires
        listed_so_far(grid, births, deaths, (row, cols)),
        0 <= row < grid.len() ==> grid[row].len() <= cols,
    ensures
        listed_so_far(grid, births, deaths, (row + 1, 0)),
{
}

/// The scan has passed the last row: the lists are complete.
pub proof fn lemma_listed_all(
    grid: Seq<Seq<bool>>,
    births: Seq<(int, int)>,
    deaths: Seq<(int, int)>,
    rows: int,
)
    requires
        listed_so_far(grid, births, deaths, (rows, 0)),
        grid.len() <= rows,
    ensures
        is_birth_list(grid, births),
        is_death_list(grid, deaths),
{
}

} // verus!
