use life_board::Coordinate;

#[test]
fn return_x_and_y() {
    let coord = Coordinate::new(0, 0);

    assert_eq!(coord.x(), 0);
    assert_eq!(coord.y(), 0);
}

#[test]
fn return_value_when_calling_value() {
    let coord = Coordinate::new(1, 0);
    let matrix = vec![vec![false, true], vec![true, false]];

    assert!(coord.value(&matrix));
}

#[test]
fn returns_x_and_y_in_a_tuple() {
    let coord = Coordinate::new(1, 2);

    let (x, y) = coord.as_tuple();

    assert!(x == 1 && y == 2);
}

#[test]
fn accessors_keep_the_two_components_apart() {
    let coord = Coordinate::new(7, 3);

    assert_eq!(coord.x(), 7);
    assert_eq!(coord.y(), 3);
    assert_eq!(coord.as_tuple(), (7, 3));
}

#[test]
fn value_takes_x_as_the_first_index() {
    // Three rows of two cells: only `matrix[2][1]` is set.
    let matrix = vec![vec![false, false], vec![false, false], vec![false, true]];

    assert!(Coordinate::new(2, 1).value(&matrix));
    assert!(!Coordinate::new(1, 1).value(&matrix));
    assert!(!Coordinate::new(2, 0).value(&matrix));
}

#[test]
fn value_reads_a_ragged_matrix() {
    let matrix = vec![vec![true], vec![false, false, true]];

    assert!(Coordinate::new(0, 0).value(&matrix));
    assert!(Coordinate::new(1, 2).value(&matrix));
    assert!(!Coordinate::new(1, 1).value(&matrix));
}

#[test]
fn a_coordinate_is_a_copyable_value() {
    let coord = Coordinate::new(4, 5);
    let copy = coord;

    assert_eq!(coord.as_tuple(), copy.as_tuple());
}
