//! A position on the grid, and the positions around it.

use crate::rules::{kept_if_inside, neighbours_within};
use vstd::prelude::*;

verus! {

/// A position on the grid, by row and column.
#[derive(PartialEq, Eq, Structural, Copy, Clone, Debug)]
pub struct Point {
    pub col: usize,
    pub row: usize,
}

impl View for Point {
    type V = (int, int);

    /// The position as `(row, column)`.
    open spec fn view(&self) -> (int, int) {
        (self.row as int, self.col as int)
    }
}

/// A list of points as mathematical positions.
pub open spec fn positions(points: Seq<Point>) -> Seq<(int, int)> {
    points.map_values(|point: Point| point@)
}

/// `cells` with `(r, c)` added where it lies inside the grid and is not
/// `(row, col)` itself.
spec fn kept_neighbour(
    cells: Seq<(int, int)>,
    row: int,
    col: int,
    r: int,
    c: int,
    dimension: int,
) -> Seq<(int, int)> {
    if r == row && c == col {
        cells
    } else {
        kept_if_inside(cells, r, c, dimension)
    }
}

/// `cells` followed by the neighbours of `(row, col)` in row `r` among the
/// first `steps` columns of the three around `col`.
spec fn row_walked(
    cells: Seq<(int, int)>,
    row: int,
    col: int,
    r: int,
    dimension: int,
    steps: int,
) -> Seq<(int, int)> {
    let cells = if steps > 0 {
        kept_neighbour(cells, row, col, r, col - 1, dimension)
    } else {
        cells
    };
    let cells = if steps > 1 {
        kept_neighbour(cells, row, col, r, col, dimension)
    } else {
        cells
    };
    let cells = if steps > 2 {
        kept_neighbour(cells, row, col, r, col + 1, dimension)
    } else {
        cells
    };
    cells
}

/// The neighbours of `(row, col)` in the first `steps` rows of the three
/// around `row`.
spec fn rows_walked(row: int, col: int, dimension: int, steps: int) -> Seq<(int, int)> {
    let cells = Seq::<(int, int)>::empty();
    let cells = if steps > 0 {
        row_walked(cells, row, col, row - 1, dimension, 3)
    } else {
        cells
    };
    let cells = if steps > 1 {
        row_walked(cells, row, col, row, dimension, 3)
    } else {
        cells
    };
    let cells = if steps > 2 {
        row_walked(cells, row, col, row + 1, dimension, 3)
    } else {
        cells
    };
    cells
}

/// The coordinate one before, at, or one after `base`, for `step` 0, 1 or 2,
/// where a `usize` can hold it.
fn stepped(base: usize, step: usize) -> (moved: Option<usize>)
    requires
        step <= 2,
    ensures
        match moved {
            Some(value) => value == base + step - 1,
            None => base + step - 1 < 0 || base + step - 1 > usize::MAX,
        },
{
    if step == 0 {
        if base == 0 {
            None
        } else {
            Some(base - 1)
        }
    } else if base > usize::MAX - (step - 1) {
        None
    } else {
        Some(base + (step - 1))
    }
}

impl Point {
    /// Whether the point lies inside a square grid of `matrix_dimension` rows
    /// and columns.
    pub fn is_inside_grid(&self, matrix_dimension: usize) -> (inside: bool)
        ensures
            inside == (self.row < matrix_dimension && self.col < matrix_dimension),
    {
        self.row < matrix_dimension && self.col < matrix_dimension
    }

    /// The neighbours of the point that lie inside a square grid of
    /// `matrix_dimension` rows and columns: up to eight, in reading order,
    /// never the point itself.
    pub fn get_neighbours(&self, matrix_dimension: usize) -> (neighbours: Vec<Point>)
        ensures
            positions(neighbours@) == neighbours_within(
                self.row as int,
                self.col as int,
                matrix_dimension as int,
            ),
    {
        let ghost row = self.row as int;
        let ghost col = self.col as int;
        let ghost dimension = matrix_dimension as int;
        let mut neighbours: Vec<Point> = Vec::new();
        assert(positions(neighbours@) =~= rows_walked(row, col, dimension, 0));
        for row_step in 0..3usize
            invariant
                row == self.row,
                col == self.col,
                dimension == matrix_dimension,
                positions(neighbours@) == rows_walked(row, col, dimension, row_step as int),
        {
            for col_step in 0..3usize
                invariant
                    row == self.row,
                    col == self.col,
                    dimension == matrix_dimension,
                    row_step < 3,
                    positions(neighbours@) == row_walked(
                        rows_walked(row, col, dimension, row_step as int),
                        row,
                        col,
                        row - 1 + row_step,
                        dimension,
                        col_step as int,
                    ),
            {
                let ghost found = positions(neighbours@);
                match (stepped(self.row, row_step), stepped(self.col, col_step)) {
                    (Some(row_to_check), Some(col_to_check)) => {
                        let neighbour_point = Point { row: row_to_check, col: col_to_check };
                        if neighbour_point.is_inside_grid(matrix_dimension) && neighbour_point
                            != *self {
                            neighbours.push(neighbour_point);
                            assert(positions(neighbours@) =~= found.push(neighbour_point@));
                        }
                    },
                    _ => {},
                }
            }
        }
        assert(rows_walked(row, col, dimension, 3) =~= neighbours_within(row, col, dimension));
        neighbours
    }
}

} // verus!
