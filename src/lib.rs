//! Data utilities for small supervised-learning models: an owned dense
//! matrix with row slicing and column appending, train/test splitting over a
//! random permutation of the rows, the choice of cluster centers for radial
//! basis function regression, a nearest-neighbour majority vote and the match
//! count behind classification accuracy, and the parameter state of the
//! linear, polynomial and radial basis function models.
pub mod centers;
pub mod error;
pub mod knn;
pub mod linear_regression;
pub mod matrix;
pub mod metrics;
pub mod polynomial_regression;
pub mod rbf_regression;
pub mod split;
pub mod types;
