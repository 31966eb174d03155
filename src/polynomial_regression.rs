use vstd::prelude::*;

use crate::error::MlError;
use crate::types::TypeRegression;

verus! {

/// Polynomial regression trained by gradient descent: one coefficient per
/// expanded feature column (`degree` of them, the last for the constant
/// column), a bias and the loss that training minimises.
pub struct PolynomialRegression<T> {
    pub coefficients: Vec<T>,
    pub bias: T,
    pub degree: usize,
    pub type_regression: TypeRegression,
}

impl<T> PolynomialRegression<T> {
    /// A model of the given degree and loss that starts from the given
    /// coefficients (one per degree) and bias.
    pub fn new(degree: usize, type_regression: TypeRegression, coefficients: Vec<T>, bias: T) -> (r:
        Result<PolynomialRegression<T>, MlError>)
        ensures
            r is Ok <==> coefficients@.len() == degree,
            r matches Ok(m) ==> m.degree == degree && m.type_regression == type_regression
                && m.coefficients@ == coefficients@ && m.bias == bias,
            r matches Err(e) ==> e == (MlError::ShapeMismatch {
                expected: degree,
                found: coefficients@.len() as usize,
            }),
    {
        if coefficients.len() != degree {
            return Err(MlError::ShapeMismatch { expected: degree, found: coefficients.len() });
        }
        Ok(PolynomialRegression { coefficients, bias, degree, type_regression })
    }

    /// Whether an input with `ncols` columns must first be expanded to the
    /// model's degree: it is used as it is only where it already has one
    /// column per coefficient.
    pub fn needs_expansion(&self, ncols: usize) -> (r: bool)
        ensures
            r == (ncols != self.degree),
    {
        ncols != self.degree
    }
}

} // verus!
