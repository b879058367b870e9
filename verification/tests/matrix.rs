use game_of_life::matrix::Matrix;

#[test]
fn main_alone_cell_dies() {
    let matrix_vec = vec![
        vec![false, false, false],
        vec![false, true, false],
        vec![false, false, false],
    ];
    let result_matrix_vec = vec![
        vec![false, false, false],
        vec![false, false, false],
        vec![false, false, false],
    ];
    let mut matrix = Matrix::new_from_vector(matrix_vec);
    let result_matrix = Matrix::new_from_vector(result_matrix_vec);

    let (cells_to_revive, cells_to_kill) = matrix.check_cells_state();

    matrix.kill_cells(&cells_to_kill);
    matrix.revive_cells(&cells_to_revive);

    assert_eq!(matrix, result_matrix);
}

#[test]
fn main_two_neighbours_survives_then_dies() {
    let matrix_vec = vec![
        vec![false, false, true],
        vec![false, true, false],
        vec![true, false, false],
    ];
    let result_one_iteration_matrix_vec = vec![
        vec![false, false, false],
        vec![false, true, false],
        vec![false, false, false],
    ];
    let result_two_iterations_matrix_vec = vec![
        vec![false, false, false],
        vec![false, false, false],
        vec![false, false, false],
    ];
    let mut matrix = Matrix::new_from_vector(matrix_vec);
    let result_one_iteration_matrix = Matrix::new_from_vector(result_one_iteration_matrix_vec);
    let result_two_iterations_matrix = Matrix::new_from_vector(result_two_iterations_matrix_vec);

    // Start of first iteration
    let (cells_to_revive, cells_to_kill) = matrix.check_cells_state();
    matrix.kill_cells(&cells_to_kill);
    matrix.revive_cells(&cells_to_revive);

    assert_eq!(matrix, result_one_iteration_matrix);

    // Start of second iteration
    let (cells_to_revive, cells_to_kill) = matrix.check_cells_state();
    matrix.kill_cells(&cells_to_kill);
    matrix.revive_cells(&cells_to_revive);

    assert_eq!(matrix, result_two_iterations_matrix);

}

#[test]
fn main_only_one_neighbour_both_die() {
    let matrix_vec = vec![
        vec![false, true, false],
        vec![false, true, false],
        vec![false, false, false],
    ];
    let result_matrix_vec = vec![
        vec![false, false, false],
        vec![false, false, false],
        vec![false, false, false],
    ];
    let mut matrix = Matrix::new_from_vector(matrix_vec);
    let result_matrix = Matrix::new_from_vector(result_matrix_vec);

    let (cells_to_revive, cells_to_kill) = matrix.check_cells_state();

    matrix.kill_cells(&cells_to_kill);
    matrix.revive_cells(&cells_to_revive);

    assert_eq!(matrix, result_matrix);
}

#[test]
fn main_four_neighbours_cell_dies() {
    let matrix_vec = vec![
        vec![true, false, true],
        vec![false, true, false],
        vec![true, false, true],
    ];
    let result_matrix_vec = vec![
        vec![false, true, false],
        vec![true, false, true],
        vec![false, true, false],
    ];
    let mut matrix = Matrix::new_from_vector(matrix_vec);
    let result_matrix = Matrix::new_from_vector(result_matrix_vec);

    let (cells_to_revive, cells_to_kill) = matrix.check_cells_state();

    matrix.kill_cells(&cells_to_kill);
    matrix.revive_cells(&cells_to_revive);

    assert_eq!(matrix, result_matrix);
}

#[test]
fn main_simple_repetitive_pattern() {
    let matrix_vec = vec![
        vec![false, true, false],
        vec![false, true, false],
        vec![false, true, false],
    ];
    let matrix_pattern_1_vec = vec![
        vec![false, false, false],
        vec![true, true, true],
        vec![false, false, false],
    ];
    let matrix_pattern_2_vec = vec![
        vec![false, true, false],
        vec![false, true, false],
        vec![false, true, false],
    ];
    let mut matrix = Matrix::new_from_vector(matrix_vec);
    let matrix_pattern_1 = Matrix::new_from_vector(matrix_pattern_1_vec);
    let matrix_pattern_2 = Matrix::new_from_vector(matrix_pattern_2_vec);

    // Start of first iteration
    let (cells_to_revive, cells_to_kill) = matrix.check_cells_state();
    matrix.kill_cells(&cells_to_kill);
    matrix.revive_cells(&cells_to_revive);

    assert_eq!(matrix, matrix_pattern_1);

    // Start of second iteration
    let (cells_to_revive, cells_to_kill) = matrix.check_cells_state();
    matrix.kill_cells(&cells_to_kill);
    matrix.revive_cells(&cells_to_revive);

    assert_eq!(matrix, matrix_pattern_2);

    // Start of third iteration
    let (cells_to_revive, cells_to_kill) = matrix.check_cells_state();
    matrix.kill_cells(&cells_to_kill);
    matrix.revive_cells(&cells_to_revive);

    assert_eq!(matrix, matrix_pattern_1);
}


#[test]
fn main_three_neighbours_cell_survives_forever() {
    let matrix_vec = vec![
        vec![false, false, false],
        vec![false, true, true],
        vec![false, true, true],
    ];
    let result_matrix_vec = vec![
        vec![false, false, false],
        vec![false, true, true],
        vec![false, true, true],
    ];
    let mut matrix = Matrix::new_from_vector(matrix_vec);
    let result_matrix = Matrix::new_from_vector(result_matrix_vec);

    // Start of first iteration
    let (cells_to_revive, cells_to_kill) = matrix.check_cells_state();
    matrix.kill_cells(&cells_to_kill);
    matrix.revive_cells(&cells_to_revive);

    assert_eq!(matrix, result_matrix);

    // Start of second iteration
    let (cells_to_revive, cells_to_kill) = matrix.check_cells_state();
    matrix.kill_cells(&cells_to_kill);
    matrix.revive_cells(&cells_to_revive);

    assert_eq!(matrix, result_matrix);

    // Start of third iteration
    let (cells_to_revive, cells_to_kill) = matrix.check_cells_state();
    matrix.kill_cells(&cells_to_kill);
    matrix.revive_cells(&cells_to_revive);

    assert_eq!(matrix, result_matrix);
}
