use vstd::prelude::*;

use crate::error::MlError;

verus! {

/// Least-squares linear regression: one coefficient per feature and a bias,
/// both absent until the model is fitted.
pub struct LinearRegression<T> {
    pub coefficients: Option<Vec<T>>,
    pub bias: Option<T>,
}

impl<T: Copy> LinearRegression<T> {
    /// An unfitted model.
    pub fn new() -> (r: LinearRegression<T>)
        ensures
            r.coefficients is None,
            r.bias is None,
    {
        LinearRegression { coefficients: None, bias: None }
    }

    /// Takes the solution of the least-squares system over the features with
    /// a constant column appended: its last entry becomes the bias and the
    /// others, in order, the feature coefficients.
    pub fn fit_from_solution(&mut self, solution: &Vec<T>)
        requires
            solution@.len() >= 1,
        ensures
            final(self).coefficients matches Some(c) && c@ == solution@.drop_last(),
            final(self).bias == Some(solution@.last()),
    {
        let n = solution.len() - 1;
        let mut coefficients: Vec<T> = Vec::new();
        for i in 0..n
            invariant
                n == solution@.len() - 1,
                coefficients@ == solution@.subrange(0, i as int),
        {
            coefficients.push(solution[i]);
        }
        assert(coefficients@ =~= solution@.drop_last());
        self.coefficients = Some(coefficients);
        self.bias = Some(solution[n]);
    }

    /// Whether the model has been fitted.
    pub fn is_fitted(&self) -> (r: bool)
        ensures
            r == (self.coefficients is Some && self.bias is Some),
    {
        self.coefficients.is_some() && self.bias.is_some()
    }

    /// A copy of the fitted coefficients and the bias; using the model before
    /// it is fitted is an error.
    pub fn parameters(&self) -> (r: Result<(Vec<T>, T), MlError>)
        ensures
            r is Ok <==> (self.coefficients is Some && self.bias is Some),
            r matches Ok(p) ==> (self.coefficients matches Some(c) && c@ == p.0@) && self.bias == Some(
                p.1,
            ),
            r matches Err(e) ==> e == MlError::PreconditionViolation,
    {
        match (&self.coefficients, &self.bias) {
            (Some(c), Some(b)) => {
                let mut copy: Vec<T> = Vec::new();
                let n = c.len();
                for i in 0..n
                    invariant
                        n == c@.len(),
                        copy@ == c@.subrange(0, i as int),
                {
                    copy.push(c[i]);
                }
                assert(copy@ =~= c@);
                Ok((copy, *b))
            },
            _ => Err(MlError::PreconditionViolation),
        }
    }
}

impl<T: Copy> Default for LinearRegression<T> {
    fn default() -> (r: Self)
        ensures
            r.coefficients is None,
            r.bias is None,
    {
        Self::new()
    }
}

} // verus!
