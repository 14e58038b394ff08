use life_board::Board;

fn blank(rows: usize, columns: usize) -> Vec<Vec<bool>> {
    vec![vec![false; columns]; rows]
}

fn board_at(matrix: Vec<Vec<bool>>, x: usize, y: usize) -> Board {
    let mut board = Board::new(matrix);
    while board.current_position.as_tuple() != (x, y) {
        board.next_position();
    }
    board
}

#[test]
fn corners_have_three_neighbours() {
    for (rows, columns) in [(3, 3), (4, 6), (2, 2)] {
        for (x, y) in [(0, 0), (columns - 1, 0), (0, rows - 1), (columns - 1, rows - 1)] {
            let board = board_at(blank(rows, columns), x, y);
            assert_eq!(board.current_positions_neighbours().len(), 3);
        }
    }
}

#[test]
fn border_cells_off_the_corners_have_five_neighbours() {
    let (rows, columns) = (4, 6);
    for x in 1..columns - 1 {
        assert_eq!(board_at(blank(rows, columns), x, 0).current_positions_neighbours().len(), 5);
        assert_eq!(
            board_at(blank(rows, columns), x, rows - 1).current_positions_neighbours().len(),
            5
        );
    }
    for y in 1..rows - 1 {
        assert_eq!(board_at(blank(rows, columns), 0, y).current_positions_neighbours().len(), 5);
        assert_eq!(
            board_at(blank(rows, columns), columns - 1, y).current_positions_neighbours().len(),
            5
        );
    }
}

#[test]
fn inner_cells_have_eight_neighbours() {
    let (rows, columns) = (4, 6);
    for y in 1..rows - 1 {
        for x in 1..columns - 1 {
            let board = board_at(blank(rows, columns), x, y);
            assert_eq!(board.current_positions_neighbours().len(), 8);
        }
    }
}

#[test]
fn neighbours_come_clockwise_from_the_north_west() {
    // The cursor stands at (1, 1). Each cell around it, given as (row, column),
    // is set in turn, and shows up at its own place in the answer.
    let around = [(0, 0), (0, 1), (0, 2), (1, 2), (2, 2), (2, 1), (2, 0), (1, 0)];
    for (place, (row, column)) in around.into_iter().enumerate() {
        let mut matrix = blank(3, 3);
        matrix[row][column] = true;
        let mut expected = vec![false; 8];
        expected[place] = true;

        let board = board_at(matrix, 1, 1);

        assert_eq!(board.current_positions_neighbours(), expected);
    }
}

#[test]
fn neighbours_leave_the_cursor_itself_out() {
    let mut matrix = blank(3, 3);
    matrix[1][1] = true;

    let board = board_at(matrix, 1, 1);

    assert_eq!(board.current_positions_neighbours(), vec![false; 8]);
}

#[test]
fn neighbours_on_the_upper_border() {
    // x = 1, y = 0 on three rows of three: east, south-east, south, south-west, west.
    let matrix = vec![
        vec![true, false, false],
        vec![false, true, true],
        vec![true, true, true],
    ];

    let board = board_at(matrix, 1, 0);

    assert_eq!(board.current_positions_neighbours(), vec![false, true, true, false, true]);
}

#[test]
fn neighbours_on_a_wide_board_take_y_as_the_row() {
    // Two rows of four cells; the cursor stands at x = 3, y = 0.
    let matrix = vec![vec![false, false, true, false], vec![false, false, false, true]];

    let board = board_at(matrix, 3, 0);

    // south (row 1, column 3), south-west (row 1, column 2), west (row 0, column 2)
    assert_eq!(board.current_positions_neighbours(), vec![true, false, true]);
}

#[test]
fn neighbours_in_a_single_row() {
    let board = board_at(vec![vec![true, false, true]], 1, 0);

    // east, then west
    assert_eq!(board.current_positions_neighbours(), vec![true, true]);
}

#[test]
fn neighbours_in_a_single_column() {
    let board = board_at(vec![vec![true], vec![false], vec![false]], 0, 1);

    // north, then south
    assert_eq!(board.current_positions_neighbours(), vec![true, false]);
}

#[test]
fn neighbours_at_the_three_by_three_corners_and_centre() {
    let matrix = vec![
        vec![false, true, false],
        vec![true, false, true],
        vec![false, true, false],
    ];
    let mut board = Board::new(matrix);

    assert_eq!(board.current_positions_neighbours(), vec![true, false, true]);

    for _ in 0..4 {
        board.next_position();
    }
    assert_eq!(board.current_position.as_tuple(), (1, 1));
    assert_eq!(
        board.current_positions_neighbours(),
        vec![false, true, false, true, false, true, false, true]
    );

    for _ in 0..4 {
        board.next_position();
    }
    assert_eq!(board.current_position.as_tuple(), (2, 2));
    assert_eq!(board.current_positions_neighbours(), vec![false, true, true]);
}
