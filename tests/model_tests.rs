use rust_regressions::centers::{sample_centers, select_centers};
use rust_regressions::error::MlError;
use rust_regressions::knn::{majority_vote, KNN};
use rust_regressions::linear_regression::LinearRegression;
use rust_regressions::matrix::Matrix;
use rust_regressions::metrics::count_matches;
use rust_regressions::polynomial_regression::PolynomialRegression;
use rust_regressions::rbf_regression::RBFRegression;
use rust_regressions::types::{Option as Choice, TypeFactoration, TypeRegression};

fn points() -> Matrix<f32> {
    Matrix::from_row_slice(4, 2, &[1.0, 1.0, 2.0, 4.0, 3.0, 9.0, 4.0, 16.0]).unwrap()
}

#[test]
fn select_centers_copies_rows_in_order() {
    let x = points();
    let mut centers = Matrix::filled(3, 2, 1.0f32);
    select_centers(&x, &mut centers, &vec![3, 0, 2, 1]);
    assert_eq!(centers.to_rows(), vec![vec![4.0, 16.0], vec![1.0, 1.0], vec![3.0, 9.0]]);
}

#[test]
fn select_centers_with_fewer_rows_keeps_the_rest() {
    let x = points();
    let mut centers = Matrix::filled(3, 2, 0.5f32);
    select_centers(&x, &mut centers, &vec![1]);
    assert_eq!(centers.to_rows(), vec![vec![2.0, 4.0], vec![0.5, 0.5], vec![0.5, 0.5]]);
}

#[test]
fn sampled_centers_are_distinct_rows() {
    let x = points();
    let mut centers = Matrix::filled(4, 2, 0.0f32);
    sample_centers(&x, &mut centers, 3);
    let mut firsts: Vec<i32> = centers.to_rows().iter().map(|r| r[0] as i32).collect();
    firsts.sort();
    assert_eq!(firsts, vec![1, 2, 3, 4]);
    for r in centers.to_rows() {
        assert_eq!(r[1], r[0] * r[0]);
    }
}

#[test]
fn rbf_new_fills_centers_and_weights() {
    let m = RBFRegression::new(0.5f32, 3, 2, Choice::Unset, 1.0f32);
    assert_eq!(m.centers.to_rows(), vec![vec![1.0, 1.0]; 3]);
    assert_eq!(m.weight.to_rows(), vec![vec![1.0]; 3]);
    assert_eq!(m.expanded_width(), 2);
    assert_eq!(m.factorization(), TypeFactoration::SVD);
    let lu = RBFRegression::new(0.5f32, 1, 1, Choice::Chosen(TypeFactoration::LU), 1.0f32);
    assert_eq!(lu.factorization(), TypeFactoration::LU);
}

#[test]
fn rbf_resample_centers_takes_rows_of_input() {
    let mut m = RBFRegression::new(0.5f32, 2, 2, Choice::Chosen(TypeFactoration::QR), 1.0f32);
    m.resample_centers(&points(), 11);
    for r in m.centers.to_rows() {
        assert!(r[0] >= 1.0 && r[0] <= 4.0);
        assert_eq!(r[1], r[0] * r[0]);
    }
    assert_ne!(m.centers.row(0), m.centers.row(1));
    assert_eq!(m.weight.to_rows(), vec![vec![1.0]; 2]);
}

#[test]
fn factorization_choice_defaults_to_svd() {
    assert_eq!(Choice::Unset.factorization(), TypeFactoration::SVD);
    assert_eq!(Choice::Chosen(TypeFactoration::QR).factorization(), TypeFactoration::QR);
}

#[test]
fn vote_picks_most_frequent_label() {
    assert_eq!(majority_vote(&vec![1, 2, 2, 3, 1, 1], 3), Ok(2));
    assert_eq!(majority_vote(&vec![1, 2, 2, 3, 1, 1], 6), Ok(1));
}

#[test]
fn vote_tie_goes_to_nearest() {
    assert_eq!(majority_vote(&vec![5, 4, 4, 5], 4), Ok(5));
    assert_eq!(majority_vote(&vec![7, 8, 9], 3), Ok(7));
}

#[test]
fn vote_with_one_neighbour_is_nearest_label() {
    assert_eq!(majority_vote(&vec![3, 1, 1, 1], 1), Ok(3));
}

#[test]
fn vote_rejects_bad_neighbourhood() {
    assert_eq!(majority_vote(&vec![1, 2], 0), Err(MlError::InvalidConfiguration));
    assert_eq!(majority_vote(&vec![1, 2], 3), Err(MlError::InvalidConfiguration));
}

#[test]
fn knn_new_keeps_training_data() {
    let k = KNN::new(points(), Matrix::filled(4, 1, 0.0f32), 2);
    assert_eq!(k.n_neighborhood, 2);
    assert_eq!(k.x.shape(), (4, 2));
    assert_eq!(k.y.shape(), (4, 1));
}

#[test]
fn count_matches_all_none_and_some() {
    assert_eq!(count_matches(&vec![1, 2, 3], &vec![1, 2, 3]), Ok(3));
    assert_eq!(count_matches(&vec![1, 2, 3], &vec![2, 3, 1]), Ok(0));
    assert_eq!(count_matches(&vec![1, 2, 3, 4], &vec![1, 0, 3, 0]), Ok(2));
    assert_eq!(count_matches(&vec![], &vec![]), Ok(0));
}

#[test]
fn count_matches_rejects_length_mismatch() {
    assert_eq!(
        count_matches(&vec![1, 2], &vec![1, 2, 3]),
        Err(MlError::ShapeMismatch { expected: 3, found: 2 })
    );
}

#[test]
fn linear_regression_parameters_before_and_after_fit() {
    let mut m: LinearRegression<f32> = LinearRegression::new();
    assert!(!m.is_fitted());
    assert_eq!(m.parameters().err(), Some(MlError::PreconditionViolation));
    m.fit_from_solution(&vec![2.0, 3.0]);
    assert!(m.is_fitted());
    assert_eq!(m.parameters(), Ok((vec![2.0], 3.0)));
    let d: LinearRegression<f32> = LinearRegression::default();
    assert!(d.coefficients.is_none() && d.bias.is_none());
}

#[test]
fn polynomial_regression_new_checks_coefficients() {
    let m = PolynomialRegression::new(3, TypeRegression::MSE, vec![0.1f32, 0.2, 0.3], 0.0).unwrap();
    assert_eq!(m.degree, 3);
    assert_eq!(m.type_regression, TypeRegression::MSE);
    assert!(!m.needs_expansion(3));
    assert!(m.needs_expansion(1));
    let e = PolynomialRegression::new(3, TypeRegression::HUBER, vec![0.1f32], 0.0).err();
    assert_eq!(e, Some(MlError::ShapeMismatch { expected: 3, found: 1 }));
}

#[test]
fn knn_validate_reports_each_error() {
    let ok = KNN::new(points(), Matrix::filled(4, 1, 0.0f32), 4);
    assert_eq!(ok.validate(), Ok(()));
    let too_many = KNN::new(points(), Matrix::filled(4, 1, 0.0f32), 5);
    assert_eq!(too_many.validate(), Err(MlError::InvalidConfiguration));
    let none = KNN::new(points(), Matrix::filled(4, 1, 0.0f32), 0);
    assert_eq!(none.validate(), Err(MlError::InvalidConfiguration));
    let short = KNN::new(points(), Matrix::filled(3, 1, 0.0f32), 1);
    assert_eq!(short.validate(), Err(MlError::ShapeMismatch { expected: 4, found: 3 }));
    let wide = KNN::new(points(), Matrix::filled(4, 2, 0.0f32), 1);
    assert_eq!(wide.validate(), Err(MlError::ShapeMismatch { expected: 1, found: 2 }));
}
