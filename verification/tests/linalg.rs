use rusty_machine::linalg::matrix::Matrix;
use rusty_machine::linalg::vector::Vector;

#[test]
fn vector_keeps_its_entries() {
    let v = Vector::new(vec![1.5, -2.0, 0.25]);
    assert_eq!(v.size(), 3);
    assert_eq!(v.data(), &vec![1.5, -2.0, 0.25]);
    assert_eq!(v.into_vec(), vec![1.5, -2.0, 0.25]);
}

#[test]
fn vector_scale_multiplies_each_entry() {
    let v = Vector::new(vec![1.0, -2.0, 0.5]);
    assert_eq!(v.scale(4.0).into_vec(), vec![4.0, -8.0, 2.0]);
    assert_eq!(v.scale(0.0).into_vec(), vec![0.0, -0.0, 0.0]);
}

#[test]
fn vector_plus_adds_entry_by_entry() {
    let a = Vector::new(vec![1.0, 2.0, 3.0]);
    let b = Vector::new(vec![0.5, -2.0, 10.0]);
    assert_eq!(a.plus(&b).into_vec(), vec![1.5, 0.0, 13.0]);
}

#[test]
fn vector_minus_subtracts_the_argument() {
    let a = Vector::new(vec![5.0, 5.0]);
    let b = Vector::new(vec![1.0, 7.0]);
    assert_eq!(a.minus(&b).into_vec(), vec![4.0, -2.0]);
    assert_eq!(b.minus(&a).into_vec(), vec![-4.0, 2.0]);
}

#[test]
fn vector_operations_on_no_entries() {
    let a: Vector<f64> = Vector::new(vec![]);
    let b: Vector<f64> = Vector::new(vec![]);
    assert_eq!(a.size(), 0);
    assert_eq!(a.scale(3.0).into_vec(), Vec::<f64>::new());
    assert_eq!(a.plus(&b).into_vec(), Vec::<f64>::new());
    assert_eq!(a.minus(&b).into_vec(), Vec::<f64>::new());
}

#[test]
fn vector_operations_work_on_integers() {
    let a = Vector::new(vec![3_i64, -4, 5]);
    let b = Vector::new(vec![1_i64, 1, 1]);
    assert_eq!(a.scale(-2).into_vec(), vec![-6, 8, -10]);
    assert_eq!(a.plus(&b).into_vec(), vec![4, -3, 6]);
    assert_eq!(a.minus(&b).into_vec(), vec![2, -5, 4]);
}

#[test]
fn matrix_reports_its_shape_and_entries() {
    let m = Matrix::new(3, 2, vec![1.0, 2.0, 3.0, 4.0, 5.0, 6.0]);
    assert_eq!(m.rows(), 3);
    assert_eq!(m.cols(), 2);
    assert_eq!(m.data(), &vec![1.0, 2.0, 3.0, 4.0, 5.0, 6.0]);
}

#[test]
fn matrix_without_rows_keeps_its_columns() {
    let m: Matrix<f64> = Matrix::new(0, 4, vec![]);
    assert_eq!(m.rows(), 0);
    assert_eq!(m.cols(), 4);
    assert!(m.data().is_empty());
}

#[test]
fn select_rows_takes_single_row() {
    let m = Matrix::new(3, 2, vec![1.0, 2.0, 3.0, 4.0, 5.0, 6.0]);
    for i in 0..3 {
        let row = m.select_rows(&[i]);
        assert_eq!(row.rows(), 1);
        assert_eq!(row.cols(), 2);
        assert_eq!(row.data(), &vec![(2 * i + 1) as f64, (2 * i + 2) as f64]);
    }
}

#[test]
fn select_rows_follows_the_order_of_the_indices() {
    let m = Matrix::new(3, 2, vec![1.0, 2.0, 3.0, 4.0, 5.0, 6.0]);
    let picked = m.select_rows(&[2, 0]);
    assert_eq!(picked.rows(), 2);
    assert_eq!(picked.cols(), 2);
    assert_eq!(picked.data(), &vec![5.0, 6.0, 1.0, 2.0]);
}

#[test]
fn select_rows_may_repeat_a_row() {
    let m = Matrix::new(2, 3, vec![1, 2, 3, 4, 5, 6]);
    let picked = m.select_rows(&[1, 1, 0, 1]);
    assert_eq!(picked.rows(), 4);
    assert_eq!(picked.cols(), 3);
    assert_eq!(picked.data(), &vec![4, 5, 6, 4, 5, 6, 1, 2, 3, 4, 5, 6]);
}

#[test]
fn select_rows_with_no_index_gives_no_rows() {
    let m = Matrix::new(2, 3, vec![1, 2, 3, 4, 5, 6]);
    let picked = m.select_rows(&[]);
    assert_eq!(picked.rows(), 0);
    assert_eq!(picked.cols(), 3);
    assert!(picked.data().is_empty());
}

#[test]
fn select_rows_leaves_the_matrix_unchanged() {
    let m = Matrix::new(2, 2, vec![1.0, 2.0, 3.0, 4.0]);
    let _ = m.select_rows(&[1, 0]);
    assert_eq!(m.rows(), 2);
    assert_eq!(m.cols(), 2);
    assert_eq!(m.data(), &vec![1.0, 2.0, 3.0, 4.0]);
}

#[test]
fn select_rows_of_a_matrix_without_columns() {
    let m: Matrix<f64> = Matrix::new(3, 0, vec![]);
    let picked = m.select_rows(&[2, 1]);
    assert_eq!(picked.rows(), 2);
    assert_eq!(picked.cols(), 0);
    assert!(picked.data().is_empty());
}
