use linalg::fault::Fault;
use linalg::matrix::Matrix;
use linalg::vector::Vector;

#[test]
fn can_create_matrix() {
    let m = Matrix::new(3, 2, 0.0f32);
    assert_eq!(3, m.nrows());
    assert_eq!(2, m.ncols());
}

#[test]
fn can_index_into_matrix() {
    let mut m = Matrix::new(3, 2, 0.0f32);
    m.set(2, 1, 3.4).unwrap();
    assert_eq!(Ok(3.4), m.get(2, 1));
}

#[test]
fn new_matrix_is_all_zero() {
    let m = Matrix::new(2, 3, 0.0f32);
    for i in 0..2 {
        for j in 0..3 {
            assert_eq!(Ok(0.0), m.get(i, j));
        }
    }
}

#[test]
fn every_cell_reads_back_what_was_written() {
    let mut m = Matrix::new(3, 4, 0u32);
    for i in 0..3 {
        for j in 0..4 {
            m.set(i, j, (10 * i + j) as u32).unwrap();
        }
    }
    for i in 0..3 {
        for j in 0..4 {
            assert_eq!(Ok((10 * i + j) as u32), m.get(i, j));
        }
    }
}

#[test]
fn write_touches_one_cell_only() {
    let mut m = Matrix::new(2, 2, 0.0f32);
    m.set(0, 1, 5.0).unwrap();
    assert_eq!(Ok(0.0), m.get(0, 0));
    assert_eq!(Ok(5.0), m.get(0, 1));
    assert_eq!(Ok(0.0), m.get(1, 0));
    assert_eq!(Ok(0.0), m.get(1, 1));
}

#[test]
fn cells_are_stored_row_major() {
    let m = Matrix::new(3, 2, 0u8);
    assert_eq!(Ok(0), m.offset(0, 0));
    assert_eq!(Ok(1), m.offset(0, 1));
    assert_eq!(Ok(2), m.offset(1, 0));
    assert_eq!(Ok(5), m.offset(2, 1));
    assert_eq!(Err(Fault::OutOfBounds), m.offset(3, 0));
}

#[test]
fn out_of_range_cell_is_bounds_fault() {
    let mut m = Matrix::new(3, 2, 0.0f32);
    assert_eq!(Err(Fault::OutOfBounds), m.get(3, 0));
    assert_eq!(Err(Fault::OutOfBounds), m.get(0, 2));
    assert_eq!(Err(Fault::OutOfBounds), m.set(0, 2, 1.0));
    assert_eq!(Err(Fault::OutOfBounds), m.set(3, 1, 1.0));
    assert_eq!(Ok(0.0), m.get(1, 0));
}

#[test]
fn empty_shapes_are_legal() {
    let m = Matrix::new(0, 5, 0.0f32);
    assert_eq!(0, m.nrows());
    assert_eq!(5, m.ncols());
    assert_eq!(Err(Fault::OutOfBounds), m.get(0, 0));
    let n = Matrix::new(4, 0, 0.0f32);
    assert_eq!(Err(Fault::OutOfBounds), n.get(0, 0));
}

#[test]
fn row_operand_of_matching_length_is_accepted() {
    let m = Matrix::new(3, 3, 0.0f32);
    let v = Vector::new(3, 3.0f32);
    assert_eq!(Ok(()), m.check_row_operand(&v, 0));
    assert_eq!(Ok(()), m.check_row_operand(&v, 2));
}

#[test]
fn row_operand_of_wrong_length_is_dimension_fault() {
    let m = Matrix::new(3, 3, 0.0f32);
    let short = Vector::new(2, 3.0f32);
    let long = Vector::new(4, 3.0f32);
    assert_eq!(Err(Fault::DimensionMismatch), m.check_row_operand(&short, 0));
    assert_eq!(Err(Fault::DimensionMismatch), m.check_row_operand(&long, 1));
}

#[test]
fn row_past_the_end_is_bounds_fault() {
    let m = Matrix::new(3, 3, 0.0f32);
    let v = Vector::new(3, 3.0f32);
    let short = Vector::new(2, 3.0f32);
    assert_eq!(Err(Fault::OutOfBounds), m.check_row_operand(&v, 3));
    assert_eq!(Err(Fault::OutOfBounds), m.check_row_operand(&short, 3));
}
