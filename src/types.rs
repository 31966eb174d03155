use vstd::prelude::*;

verus! {

/// Loss minimised by gradient-descent polynomial regression.
#[derive(Clone, Copy, Debug, PartialEq, Eq, Structural)]
pub enum TypeRegression {
    MAE,
    MSE,
    HUBER,
}

/// Matrix factorization used to solve the normal equations.
#[derive(Clone, Copy, Debug, PartialEq, Eq, Structural)]
pub enum TypeFactoration {
    SVD,
    QR,
    LU,
}

/// A choice that may be left open; an open factorization choice falls back
/// to singular value decomposition.
#[derive(Clone, Copy, Debug, PartialEq, Eq)]
pub enum Option<T> {
    Unset,
    Chosen(T),
}

/// The factorization that an optional choice stands for.
pub open spec fn resolved_factorization(choice: Option<TypeFactoration>) -> TypeFactoration {
    match choice {
        Option::Unset => TypeFactoration::SVD,
        Option::Chosen(f) => f,
    }
}

impl Option<TypeFactoration> {
    /// The chosen factorization, or singular value decomposition when none
    /// was chosen.
    pub fn factorization(&self) -> (r: TypeFactoration)
        ensures
            r == resolved_factorization(*self),
    {
        match self {
            Option::Unset => TypeFactoration::SVD,
            Option::Chosen(f) => *f,
        }
    }
}

} // verus!
