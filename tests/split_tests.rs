use rust_regressions::error::MlError;
use rust_regressions::matrix::Matrix;
use rust_regressions::split::{index_range, row_order, train_test_split};

fn xy(n: usize) -> (Matrix<f32>, Matrix<f32>) {
    let xs: Vec<f32> = (0..n).flat_map(|i| vec![i as f32, 10.0 * i as f32]).collect();
    let ys: Vec<f32> = (0..n).map(|i| 2.0 * i as f32 + 3.0).collect();
    (
        Matrix::from_row_slice(n, 2, &xs).unwrap(),
        Matrix::from_row_slice(n, 1, &ys).unwrap(),
    )
}

#[test]
fn index_range_counts_up() {
    assert_eq!(index_range(4), vec![0, 1, 2, 3]);
    assert_eq!(index_range(0), Vec::<usize>::new());
}

#[test]
fn row_order_without_shuffle_is_identity() {
    assert_eq!(row_order(5, false, 9), vec![0, 1, 2, 3, 4]);
}

#[test]
fn row_order_with_shuffle_is_a_permutation() {
    let order = row_order(50, true, 7);
    let mut sorted = order.clone();
    sorted.sort();
    assert_eq!(sorted, index_range(50));
    assert_ne!(order, index_range(50));
    assert_eq!(row_order(50, true, 7), order);
}

#[test]
fn split_without_shuffle_takes_first_rows_as_test() {
    let (x, y) = xy(5);
    let (x_train, x_test, y_train, y_test) = train_test_split(&x, &y, 2, false, 0).unwrap();
    assert_eq!(x_test.to_rows(), vec![vec![0.0, 0.0], vec![1.0, 10.0]]);
    assert_eq!(x_train.to_rows(), vec![vec![2.0, 20.0], vec![3.0, 30.0], vec![4.0, 40.0]]);
    assert_eq!(y_test.to_rows(), vec![vec![3.0], vec![5.0]]);
    assert_eq!(y_train.to_rows(), vec![vec![7.0], vec![9.0], vec![11.0]]);
}

#[test]
fn split_with_shuffle_partitions_rows() {
    let (x, y) = xy(20);
    let (x_train, x_test, y_train, y_test) = train_test_split(&x, &y, 5, true, 42).unwrap();
    assert_eq!(x_train.nrows() + x_test.nrows(), 20);
    assert_eq!(y_train.nrows() + y_test.nrows(), 20);
    assert_eq!(x_test.nrows(), 5);
    let mut seen: Vec<usize> = x_test
        .to_rows()
        .iter()
        .chain(x_train.to_rows().iter())
        .map(|r| r[0] as usize)
        .collect();
    seen.sort();
    assert_eq!(seen, index_range(20));
    for (xr, yr) in x_test.to_rows().iter().zip(y_test.to_rows().iter()) {
        assert_eq!(yr[0], 2.0 * xr[0] + 3.0);
    }
}

#[test]
fn split_whole_set_as_test() {
    let (x, y) = xy(3);
    let (x_train, x_test, _, _) = train_test_split(&x, &y, 3, true, 1).unwrap();
    assert_eq!(x_train.nrows(), 0);
    assert_eq!(x_test.nrows(), 3);
}

#[test]
fn split_rejects_row_count_mismatch() {
    let (x, _) = xy(4);
    let (_, y) = xy(3);
    let r = train_test_split(&x, &y, 1, false, 0);
    assert_eq!(r.err(), Some(MlError::ShapeMismatch { expected: 4, found: 3 }));
}

#[test]
fn split_rejects_empty_or_oversized_test_part() {
    let (x, y) = xy(4);
    assert_eq!(
        train_test_split(&x, &y, 0, true, 0).err(),
        Some(MlError::InvalidConfiguration)
    );
    assert_eq!(
        train_test_split(&x, &y, 5, true, 0).err(),
        Some(MlError::InvalidConfiguration)
    );
}
