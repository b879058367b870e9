use game_of_life::game_logic::{check_cell_state, manage_cell_state};
use game_of_life::{ALIVE, DEAD};

#[test]
fn alone_cell_dies() {
    let mut matrix: [[bool; 3]; 3] = [
        [false, false, false],
        [false, true, false],
        [false, false, false],
    ];
    let result_matrix: [[bool; 3]; 3] = [
        [false, false, false],
        [false, false, false],
        [false, false, false],
    ];

    let (cells_to_revive, cells_to_kill) = check_cell_state(&matrix);

    manage_cell_state(cells_to_kill, DEAD, &mut matrix);
    manage_cell_state(cells_to_revive, ALIVE, &mut matrix);

    assert_eq!(matrix, result_matrix);
}

#[test]
fn two_neighbours_survives_then_dies() {
    let mut matrix: [[bool; 3]; 3] = [
        [false, false, true],
        [false, true, false],
        [true, false, false],
    ];
    let result_one_iteration_matrix: [[bool; 3]; 3] = [
        [false, false, false],
        [false, true, false],
        [false, false, false],
    ];
    let result_two_iterations_matrix: [[bool; 3]; 3] = [
        [false, false, false],
        [false, false, false],
        [false, false, false],
    ];

    // Start of first iteration
    let (cells_to_revive, cells_to_kill) = check_cell_state(&matrix);
    manage_cell_state(cells_to_kill, DEAD, &mut matrix);
    manage_cell_state(cells_to_revive, ALIVE, &mut matrix);

    assert_eq!(matrix, result_one_iteration_matrix);

    // Start of second iteration
    let (cells_to_revive, cells_to_kill) = check_cell_state(&matrix);
    manage_cell_state(cells_to_kill, DEAD, &mut matrix);
    manage_cell_state(cells_to_revive, ALIVE, &mut matrix);

    assert_eq!(matrix, result_two_iterations_matrix);

}

#[test]
fn only_one_neighbour_both_die() {
    let mut matrix: [[bool; 3]; 3] = [
        [false, true, false],
        [false, true, false],
        [false, false, false],
    ];
    let result_matrix: [[bool; 3]; 3] = [
        [false, false, false],
        [false, false, false],
        [false, false, false],
    ];

    let (cells_to_revive, cells_to_kill) = check_cell_state(&matrix);

    manage_cell_state(cells_to_kill, DEAD, &mut matrix);
    manage_cell_state(cells_to_revive, ALIVE, &mut matrix);

    assert_eq!(matrix, result_matrix);
}

#[test]
fn four_neighbours_cell_dies() {
    let mut matrix: [[bool; 3]; 3] = [
        [true, false, true],
        [false, true, false],
        [true, false, true],
    ];
    let result_matrix: [[bool; 3]; 3] = [
        [false, true, false],
        [true, false, true],
        [false, true, false],
    ];

    let (cells_to_revive, cells_to_kill) = check_cell_state(&matrix);

    manage_cell_state(cells_to_kill, DEAD, &mut matrix);
    manage_cell_state(cells_to_revive, ALIVE, &mut matrix);

    assert_eq!(matrix, result_matrix);
}

#[test]
fn simple_repetitive_pattern() {
    let mut matrix: [[bool; 3]; 3] =[
        [false, true, false],
        [false, true, false],
        [false, true, false],
    ];
    let matrix_pattern_1: [[bool; 3]; 3] =[
        [false, false, false],
        [true, true, true],
        [false, false, false],
    ];
    let matrix_pattern_2: [[bool; 3]; 3] = [
        [false, true, false],
        [false, true, false],
        [false, true, false],
    ];

    // Start of first iteration
    let (cells_to_revive, cells_to_kill) = check_cell_state(&matrix);
    manage_cell_state(cells_to_kill, DEAD, &mut matrix);
    manage_cell_state(cells_to_revive, ALIVE, &mut matrix);

    assert_eq!(matrix, matrix_pattern_1);

    // Start of second iteration
    let (cells_to_revive, cells_to_kill) = check_cell_state(&matrix);
    manage_cell_state(cells_to_kill, DEAD, &mut matrix);
    manage_cell_state(cells_to_revive, ALIVE, &mut matrix);

    assert_eq!(matrix, matrix_pattern_2);

    // Start of third iteration
    let (cells_to_revive, cells_to_kill) = check_cell_state(&matrix);
    manage_cell_state(cells_to_kill, DEAD, &mut matrix);
    manage_cell_state(cells_to_revive, ALIVE, &mut matrix);

    assert_eq!(matrix, matrix_pattern_1);
}


#[test]
fn three_neighbours_cell_survives_forever() {
    let mut matrix: [[bool; 3]; 3] = [
        [false, false, false],
        [false, true, true],
        [false, true, true],
    ];
    let result_matrix: [[bool; 3]; 3] = [
        [false, false, false],
        [false, true, true],
        [false, true, true],
    ];

    // Start of first iteration
    let (cells_to_revive, cells_to_kill) = check_cell_state(&matrix);
    manage_cell_state(cells_to_kill, DEAD, &mut matrix);
    manage_cell_state(cells_to_revive, ALIVE, &mut matrix);

    assert_eq!(matrix, result_matrix);

    // Start of second iteration
    let (cells_to_revive, cells_to_kill) = check_cell_state(&matrix);
    manage_cell_state(cells_to_kill, DEAD, &mut matrix);
    manage_cell_state(cells_to_revive, ALIVE, &mut matrix);

    assert_eq!(matrix, result_matrix);

    // Start of third iteration
    let (cells_to_revive, cells_to_kill) = check_cell_state(&matrix);
    manage_cell_state(cells_to_kill, DEAD, &mut matrix);
    manage_cell_state(cells_to_revive, ALIVE, &mut matrix);

    assert_eq!(matrix, result_matrix);
}
