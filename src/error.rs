use vstd::prelude::*;

verus! {

/// Why an operation on matrices or models was aborted.
#[derive(Clone, Copy, Debug, PartialEq, Eq, Structural)]
pub enum MlError {
    /// Two shapes that must agree do not: the count that was expected and the
    /// one that was found.
    ShapeMismatch { expected: usize, found: usize },
    /// A size parameter is out of its range (an empty test split, a
    /// neighbourhood larger than the training set).
    InvalidConfiguration,
    /// The chosen factorization could not solve the linear system.
    NumericalSolveFailure,
    /// A model was used before it was fitted.
    PreconditionViolation,
}

} // verus!
