//! A grid whose size is chosen when it is built.

use crate::laws::{
    law_births_and_deaths_apart, law_neighbours_at_most_eight, law_neighbours_give_the_count,
};
use crate::point::{positions, Point};
use crate::rules::{
    has_shape, in_grid, is_birth_list, is_death_list, live_among, live_neighbours,
    share_no_cell, toggled, with_state,
};
use crate::scan::{
    lemma_listed_all, lemma_listed_next_row, lemma_listed_none, lemma_listed_one_more,
    listed_so_far,
};
use crate::{ALIVE, DEAD};
use vstd::prelude::*;

verus! {

/// The rows of a vector of vectors as a sequence of sequences.
pub open spec fn rows_of(rows: Seq<Vec<bool>>) -> Seq<Seq<bool>> {
    Seq::new(rows.len(), |r: int| rows[r]@)
}

/// `grid` has at least one row, and every row has the same number of cells,
/// at least one.
pub open spec fn is_rectangle(grid: Seq<Seq<bool>>) -> bool {
    &&& grid.len() > 0
    &&& grid[0].len() > 0
    &&& has_shape(grid, grid.len() as int, grid[0].len() as int)
}

/// Every point of `points` names a cell of `grid`.
pub open spec fn all_in_grid(grid: Seq<Seq<bool>>, points: Seq<Point>) -> bool {
    forall|i: int|
        0 <= i < points.len() ==> in_grid(grid, (#[trigger] points[i]).row as int, points[i].col as int)
}

/// The grid on which the cells live.
#[derive(PartialEq, Debug)]
pub struct Matrix {
    inner: Vec<Vec<bool>>,
}

impl View for Matrix {
    type V = Seq<Seq<bool>>;

    /// The grid as a sequence of rows.
    closed spec fn view(&self) -> Seq<Seq<bool>> {
        rows_of(self.inner@)
    }
}

impl Matrix {
    /// The grid is a rectangle of at least one cell.
    pub open spec fn wf(&self) -> bool {
        is_rectangle(self@)
    }

    /// A grid of `rows` by `cols` dead cells.
    pub fn new(rows: usize, cols: usize) -> (matrix: Self)
        requires
            rows > 0,
            cols > 0,
        ensures
            matrix.wf(),
            matrix@ == Seq::new(rows as nat, |r: int| Seq::new(cols as nat, |c: int| DEAD)),
    {
        let ghost dead_row = Seq::new(cols as nat, |c: int| DEAD);
        let mut inner: Vec<Vec<bool>> = Vec::new();
        for filled in 0..rows
            invariant
                dead_row == Seq::new(cols as nat, |c: int| DEAD),
                inner@.len() == filled,
                forall|r: int| 0 <= r < filled ==> (#[trigger] inner@[r])@ == dead_row,
        {
            let mut row: Vec<bool> = Vec::new();
            for width in 0..cols
                invariant
                    row@.len() == width,
                    forall|c: int| 0 <= c < width ==> row@[c] == DEAD,
            {
                row.push(false);
            }
            assert(row@ =~= dead_row);
            inner.push(row);
        }
        let matrix = Self { inner };
        assert(matrix@ =~= Seq::new(rows as nat, |r: int| dead_row));
        matrix
    }

    /// The grid whose rows are those of `vec_matrix`.
    pub fn new_from_vector(vec_matrix: Vec<Vec<bool>>) -> (matrix: Self)
        requires
            is_rectangle(rows_of(vec_matrix@)),
        ensures
            matrix.wf(),
            matrix@ == rows_of(vec_matrix@),
    {
        Self { inner: vec_matrix }
    }

    /// The number of rows.
    pub fn dimension(&self) -> (rows: usize)
        ensures
            rows == self@.len(),
    {
        self.inner.len()
    }

    /// The number of columns.
    pub fn columns(&self) -> (cols: usize)
        requires
            self.wf(),
        ensures
            cols == self@[0].len(),
    {
        self.inner[0].len()
    }

    /// Whether `point` names a cell of the grid.
    pub fn holds(&self, point: Point) -> (inside: bool)
        ensures
            inside == in_grid(self@, point.row as int, point.col as int),
    {
        point.row < self.inner.len() && point.col < self.inner[point.row].len()
    }

    /// Flips the state of the cell at `point`.
    pub fn change_cell_state(&mut self, point: Point)
        requires
            old(self).wf(),
            in_grid(old(self)@, point.row as int, point.col as int),
        ensures
            final(self).wf(),
            final(self)@ == toggled(old(self)@, point.row as int, point.col as int),
    {
        let curr_state = self[point];
        let new_state = if curr_state == ALIVE {
            DEAD
        } else {
            ALIVE
        };
        self.inner[point.row][point.col] = new_state;
        assert(self@ =~~= toggled(old(self)@, point.row as int, point.col as int));
    }

    /// Counts the live cells among the eight neighbours of the cell at
    /// `point`. Neighbours beyond the border do not exist, and the cell
    /// itself is no neighbour.
    pub fn check_cell_alive_neighbours(&self, point: &Point) -> (alive_neighbours: i32)
        requires
            self.wf(),
            in_grid(self@, point.row as int, point.col as int),
        ensures
            alive_neighbours == live_neighbours(self@, point.row as int, point.col as int),
            0 <= alive_neighbours <= 8,
    {
        // The neighbours are taken from the square that the longer side
        // spans; those beyond the shorter side are passed over below.
        let rows = self.dimension();
        let cols = self.columns();
        let reach = if rows < cols {
            cols
        } else {
            rows
        };
        let mut alive_neighbours: i32 = 0;
        let neighbours = point.get_neighbours(reach);
        let ghost around = positions(neighbours@);
        proof {
            law_neighbours_at_most_eight(point.row as int, point.col as int, reach as int);
        }
        for i in 0..neighbours.len()
            invariant
                around == positions(neighbours@),
                neighbours@.len() <= 8,
                0 <= alive_neighbours <= i,
                alive_neighbours == live_among(self@, around.take(i as int)),
        {
            let p = neighbours[i];
            assert(around.take(i + 1).drop_last() =~= around.take(i as int));
            assert(around.take(i + 1).last() == p@);
            if self.holds(p) && self[p] == ALIVE {
                alive_neighbours += 1;
            }
        }
        proof {
            assert(around.take(neighbours@.len() as int) =~= around);
            law_neighbours_give_the_count(
                self@,
                point.row as int,
                point.col as int,
                reach as int,
            );
        }
        alive_neighbours
    }

    /// Finds the cells that change in the next generation: first those that
    /// are born, then those that die. Every cell is judged against the grid
    /// as it stands, and each list names its cells row by row, left to
    /// right. No cell stands in both lists.
    pub fn check_cells_state(&self) -> (changes: (Vec<Point>, Vec<Point>))
        requires
            self.wf(),
        ensures
            is_birth_list(self@, positions(changes.0@)),
            is_death_list(self@, positions(changes.1@)),
            share_no_cell(positions(changes.0@), positions(changes.1@)),
            all_in_grid(self@, changes.0@),
            all_in_grid(self@, changes.1@),
    {
        let mut cells_to_revive: Vec<Point> = Vec::new();
        let mut cells_to_kill: Vec<Point> = Vec::new();
        let rows = self.dimension();
        let cols = self.columns();
        proof {
            lemma_listed_none(self@);
            assert(positions(cells_to_revive@) =~= Seq::empty());
            assert(positions(cells_to_kill@) =~= Seq::empty());
        }

        for row_i in 0..rows
            invariant
                self.wf(),
                rows == self@.len(),
                cols == self@[0].len(),
                listed_so_far(
                    self@,
                    positions(cells_to_revive@),
                    positions(cells_to_kill@),
                    (row_i as int, 0),
                ),
        {
            for col_i in 0..cols
                invariant
                    self.wf(),
                    rows == self@.len(),
                    cols == self@[0].len(),
                    row_i < rows,
                    listed_so_far(
                        self@,
                        positions(cells_to_revive@),
                        positions(cells_to_kill@),
                        (row_i as int, col_i as int),
                    ),
            {
                let point = Point { row: row_i, col: col_i };
                let cell = self[point];
                let alive_neighbours = self.check_cell_alive_neighbours(&point);
                let ghost births = positions(cells_to_revive@);
                let ghost deaths = positions(cells_to_kill@);

                if cell == DEAD && alive_neighbours == 3 {
                    cells_to_revive.push(point);
                    assert(positions(cells_to_revive@) =~= births.push(point@));
                } else if cell == ALIVE && (alive_neighbours < 2 || alive_neighbours > 3) {
                    cells_to_kill.push(point);
                    assert(positions(cells_to_kill@) =~= deaths.push(point@));
                }
                proof {
                    lemma_listed_one_more(
                        self@,
                        births,
                        deaths,
                        point@,
                        positions(cells_to_revive@),
                        positions(cells_to_kill@),
                    );
                }
            }
            proof {
                lemma_listed_next_row(
                    self@,
                    positions(cells_to_revive@),
                    positions(cells_to_kill@),
                    row_i as int,
                    cols as int,
                );
            }
        }
        proof {
            let births = positions(cells_to_revive@);
            let deaths = positions(cells_to_kill@);
            lemma_listed_all(self@, births, deaths, rows as int);
            law_births_and_deaths_apart(self@, births, deaths);
            assert forall|i: int| 0 <= i < births.len() implies in_grid(
                self@,
                (#[trigger] cells_to_revive@[i]).row as int,
                cells_to_revive@[i].col as int,
            ) by {
                assert(births.contains((births[i].0, births[i].1)));
            }
            assert forall|i: int| 0 <= i < deaths.len() implies in_grid(
                self@,
                (#[trigger] cells_to_kill@[i]).row as int,
                cells_to_kill@[i].col as int,
            ) by {
                assert(deaths.contains((deaths[i].0, deaths[i].1)));
            }
        }
        (cells_to_revive, cells_to_kill)
    }

    /// Sets every cell listed in `cells` to dead.
    pub fn kill_cells(&mut self, cells: &Vec<Point>)
        requires
            old(self).wf(),
            all_in_grid(old(self)@, cells@),
        ensures
            final(self).wf(),
            final(self)@ == with_state(old(self)@, positions(cells@), DEAD),
    {
        self.manage_cells_state(cells, DEAD);
    }

    /// Sets every cell listed in `cells` to alive.
    pub fn revive_cells(&mut self, cells: &Vec<Point>)
        requires
            old(self).wf(),
            all_in_grid(old(self)@, cells@),
        ensures
            final(self).wf(),
            final(self)@ == with_state(old(self)@, positions(cells@), ALIVE),
    {
        self.manage_cells_state(cells, ALIVE);
    }

    /// Sets every cell listed in `cells` to `state` and leaves the others as
    /// they are.
    pub fn manage_cells_state(&mut self, cells: &Vec<Point>, state: bool)
        requires
            old(self).wf(),
            all_in_grid(old(self)@, cells@),
        ensures
            final(self).wf(),
            final(self)@ == with_state(old(self)@, positions(cells@), state),
    {
        let ghost before = self@;
        assert(self@ =~~= with_state(before, positions(cells@.take(0)), state));
        for i in 0..cells.len()
            invariant
                before == old(self)@,
                is_rectangle(before),
                all_in_grid(before, cells@),
                self@ == with_state(before, positions(cells@.take(i as int)), state),
        {
            let point = cells[i];
            let ghost prev = self@;
            let ghost cell = point@;
            assert(prev.len() == before.len());
            assert(prev[cell.0].len() == before[cell.0].len());
            self.inner[point.row][point.col] = state;
            proof {
                let done = positions(cells@.take(i as int));
                assert(self@ =~~= prev.update(cell.0, prev[cell.0].update(cell.1, state)));
                assert(positions(cells@.take(i + 1)) =~= done.push(cell));
                assert forall|r: int, c: int|
                    done.push(cell).contains((r, c)) <==> (done.contains((r, c)) || (r, c)
                        == cell) by {
                    vstd::seq_lib::lemma_seq_contains_after_push(done, cell, (r, c));
                }
                assert(self@ =~~= with_state(before, done.push(cell), state));
            }
        }
        assert(cells@.take(cells@.len() as int) =~= cells@);
    }
}

impl core::ops::Index<Point> for Matrix {
    type Output = bool;

    /// The state of the cell at `point`, which must name a cell of the grid.
    fn index(&self, point: Point) -> (state: &bool)
        ensures
            *state == self@[point.row as int][point.col as int],
    {
        &self.inner[point.row][point.col]
    }
}

impl vstd::std_specs::core::IndexSpecImpl<Point> for Matrix {
    open spec fn index_req(&self, point: &Point) -> bool {
        in_grid(self@, point.row as int, point.col as int)
    }
}

} // verus!
