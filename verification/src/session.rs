//! What a tick of the clock and the start/stop key do to a game.

use crate::laws::law_changes_give_next_generation;
use crate::matrix::Matrix;
use crate::point::{positions, Point};
use crate::rules::{in_grid, next_generation, toggled};
use vstd::prelude::*;

verus! {

/// Whether the grid is being edited or the generations run.
#[derive(PartialEq, Eq, Structural, Copy, Clone, Debug)]
pub enum Mode {
    /// The grid stands still and cells can be flipped by hand.
    Editing,
    /// Every tick brings the next generation.
    Running,
}

impl Mode {
    /// The mode that the start/stop key leads to.
    pub fn switched(self) -> (next: Mode)
        ensures
            next == match self {
                Mode::Editing => Mode::Running,
                Mode::Running => Mode::Editing,
            },
    {
        match self {
            Mode::Editing => Mode::Running,
            Mode::Running => Mode::Editing,
        }
    }
}

/// The grid after one tick that began with `grid`: the next generation while
/// running; while editing, the grid with the pressed cell flipped, or the
/// grid itself where no cell is pressed.
pub open spec fn after_tick(grid: Seq<Seq<bool>>, mode: Mode, pressed: Option<Point>) -> Seq<
    Seq<bool>,
> {
    match mode {
        Mode::Running => next_generation(grid),
        Mode::Editing => match pressed {
            Some(point) => toggled(grid, point.row as int, point.col as int),
            None => grid,
        },
    }
}

/// Plays one tick on `matrix`. While running, the cells that die are killed
/// and the cells that are born revived, all judged against the grid as the
/// tick found it. While editing, the cell at `pressed` is flipped.
pub fn tick(matrix: &mut Matrix, mode: Mode, pressed: Option<Point>)
    requires
        old(matrix).wf(),
        mode == Mode::Editing ==> match pressed {
            Some(point) => in_grid(old(matrix)@, point.row as int, point.col as int),
            None => true,
        },
    ensures
        final(matrix).wf(),
        final(matrix)@ == after_tick(old(matrix)@, mode, pressed),
{
    match mode {
        Mode::Editing => {
            if let Some(point) = pressed {
                matrix.change_cell_state(point);
            }
        },
        Mode::Running => {
            let (cells_to_revive, cells_to_kill) = matrix.check_cells_state();
            matrix.kill_cells(&cells_to_kill);
            matrix.revive_cells(&cells_to_revive);
            proof {
                law_changes_give_next_generation(
                    old(matrix)@,
                    positions(cells_to_revive@),
                    positions(cells_to_kill@),
                );
            }
        },
    }
}

} // verus!
