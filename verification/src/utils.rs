//! Position checks for the fixed grid.

use crate::{COLS, ROWS};
use vstd::prelude::*;

verus! {

/// Whether `(row_i, col_i)` lies inside the fixed grid.
pub fn is_position_valid(row_i: i8, col_i: i8) -> (valid: bool)
    ensures
        valid == (0 <= row_i < ROWS && 0 <= col_i < COLS),
{
    (row_i >= 0 && row_i < ROWS as i8) && (col_i >= 0 && col_i < COLS as i8)
}

/// Whether the two positions differ.
pub fn is_different_cell(row_i_1: i8, col_i_1: i8, row_i_2: i8, col_i_2: i8) -> (different: bool)
    ensures
        different == (row_i_1 != row_i_2 || col_i_1 != col_i_2),
{
    row_i_1 != row_i_2 || col_i_1 != col_i_2
}

} // verus!
