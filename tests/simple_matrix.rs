use hackman_bot::simple_matrix::Matrix;

fn three_by_three() -> Matrix<i32> {
    Matrix {
        m: vec![
            0, 1, 2,
            3, 4, 5,
            6, 7, 8],
        width: 3,
        height: 3,
    }
}

#[test]
fn position_test() {
    let matrix = three_by_three();

    assert_eq!(matrix.get((0, 0)), matrix.get(matrix.position(0)));
    assert_eq!(matrix.get((1, 0)), matrix.get(matrix.position(1)));
    assert_eq!(matrix.get((2, 0)), matrix.get(matrix.position(2)));
    assert_eq!(matrix.get((0, 1)), matrix.get(matrix.position(3)));
    assert_eq!(matrix.get((1, 1)), matrix.get(matrix.position(4)));
    assert_eq!(matrix.get((2, 1)), matrix.get(matrix.position(5)));
    assert_eq!(matrix.get((0, 2)), matrix.get(matrix.position(6)));
    assert_eq!(matrix.get((1, 2)), matrix.get(matrix.position(7)));
    assert_eq!(matrix.get((2, 2)), matrix.get(matrix.position(8)));
}

#[test]
fn position_is_column_then_row() {
    let matrix = three_by_three();
    assert_eq!(matrix.position(0), (0, 0));
    assert_eq!(matrix.position(5), (2, 1));
    assert_eq!(matrix.position(7), (1, 2));
    for i in 0..9usize {
        assert_eq!(matrix.get(matrix.position(i)), Some(i as i32));
    }
}

#[test]
fn position_in_a_wide_grid() {
    let matrix: Matrix<i32> = Matrix::new(4, 2);
    assert_eq!(matrix.position(5), (1, 1));
    assert_eq!(matrix.position(3), (3, 0));
}

#[test]
fn position_with_zero_width_is_one_row() {
    let matrix: Matrix<i32> = Matrix::new(0, 0);
    assert_eq!(matrix.position(7), (7, 0));
}

#[test]
fn get_outside_the_grid_is_none() {
    let matrix = three_by_three();
    assert_eq!(matrix.get((3, 0)), None);
    assert_eq!(matrix.get((0, 3)), None);
    assert_eq!(matrix.index_of((2, 2)), Some(8));
    assert_eq!(matrix.index_of((usize::MAX, 0)), None);
    let short = Matrix { m: vec![1, 2], width: 3, height: 3 };
    assert_eq!(short.get((2, 0)), None);
    assert_eq!(short.get((1, 0)), Some(2));
}

#[test]
fn reset_to_sets_every_cell() {
    let mut matrix = three_by_three();
    matrix.reset_to(7);
    assert_eq!(matrix.m, vec![7; 9]);
    assert_eq!((matrix.width, matrix.height), (3, 3));
}

#[test]
fn new_matrix_is_empty() {
    let matrix: Matrix<u8> = Matrix::new(5, 6);
    assert!(matrix.m.is_empty());
    assert_eq!((matrix.width, matrix.height), (5, 6));
}
