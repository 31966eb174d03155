use vstd::prelude::*;

use crate::centers::{centers_from, sample_centers};
use crate::matrix::Matrix;
use crate::split::is_permutation_of_range;
use crate::types::{resolved_factorization, Option, TypeFactoration};

verus! {

/// Radial basis function regression: `num_center` centers in the expanded
/// feature space, one weight per center, the kernel width `beta` and the
/// factorization that solves the normal equations.
pub struct RBFRegression<T> {
    pub num_center: usize,
    pub centers: Matrix<T>,
    pub beta: T,
    pub weight: Matrix<T>,
    pub type_factoration: Option<TypeFactoration>,
}

impl<T: Copy> RBFRegression<T> {
    /// A model whose `num_center` centers of `num_cols` entries and whose
    /// weights all start at `fill`.
    pub fn new(
        beta: T,
        num_center: usize,
        num_cols: usize,
        type_factoration: Option<TypeFactoration>,
        fill: T,
    ) -> (r: RBFRegression<T>)
        ensures
            r.num_center == num_center,
            r.beta == beta,
            r.type_factoration == type_factoration,
            r.centers.wf(),
            r.centers@.len() == num_center,
            r.centers.n_cols() == num_cols,
            forall|i: int, j: int|
                0 <= i < num_center && 0 <= j < num_cols ==> r.centers@[i][j] == fill,
            r.weight.wf(),
            r.weight@.len() == num_center,
            r.weight.n_cols() == 1,
            forall|i: int| 0 <= i < num_center ==> r.weight@[i][0] == fill,
    {
        RBFRegression {
            num_center,
            centers: Matrix::filled(num_center, num_cols, fill),
            beta,
            weight: Matrix::filled(num_center, 1, fill),
            type_factoration,
        }
    }

    /// The number of columns an input must be expanded to.
    pub fn expanded_width(&self) -> (r: usize)
        ensures
            r == self.centers.n_cols(),
    {
        self.centers.ncols()
    }

    /// The factorization that fitting uses: the chosen one, or singular
    /// value decomposition where none was chosen.
    pub fn factorization(&self) -> (r: TypeFactoration)
        ensures
            r == resolved_factorization(self.type_factoration),
    {
        self.type_factoration.factorization()
    }

    /// Replaces the centers by rows of the expanded input `x`, taken in a
    /// random order drawn from `seed`; with fewer rows than centers the
    /// remaining centers keep their values. Nothing else changes.
    pub fn resample_centers(&mut self, x: &Matrix<T>, seed: u64)
        requires
            x.n_cols() == old(self).centers.n_cols(),
        ensures
            final(self).centers.wf(),
            final(self).centers.n_cols() == old(self).centers.n_cols(),
            exists|p: Seq<usize>|
                is_permutation_of_range(p, x@.len()) && final(self).centers@
                    == #[trigger] centers_from(x@, old(self).centers@, p),
            final(self).num_center == old(self).num_center,
            final(self).beta == old(self).beta,
            final(self).weight == old(self).weight,
            final(self).type_factoration == old(self).type_factoration,
    {
        proof {
            use_type_invariant(x);
            use_type_invariant(&self.centers);
        }
        sample_centers(x, &mut self.centers, seed);
    }
}

} // verus!
