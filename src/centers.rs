use vstd::prelude::*;

use crate::matrix::{indices_below, Matrix};
use crate::split::{is_permutation_of_range, lemma_permutation_facts, row_order};

verus! {

/// The centers after the rows of `x` named by `order` have been copied, one
/// by one, over the leading rows of `centers`; rows past the end of `order`
/// keep their old values.
pub open spec fn centers_from<T>(x: Seq<Seq<T>>, centers: Seq<Seq<T>>, order: Seq<usize>) -> Seq<
    Seq<T>,
> {
    Seq::new(
        centers.len(),
        |t: int|
            if t < order.len() {
                x[order[t] as int]
            } else {
                centers[t]
            },
    )
}

/// Copies row `order[t]` of `x` into row `t` of `centers`, for each center
/// row `t` for which `order` has an entry. Where `order` is shorter than the
/// number of centers, the remaining center rows are left as they were.
pub fn select_centers<T: Copy>(x: &Matrix<T>, centers: &mut Matrix<T>, order: &Vec<usize>)
    requires
        x.n_cols() == old(centers).n_cols(),
        indices_below(order@, x@.len()),
    ensures
        final(centers).wf(),
        final(centers).n_cols() == old(centers).n_cols(),
        final(centers)@ == centers_from(x@, old(centers)@, order@),
{
    proof {
        use_type_invariant(x);
        use_type_invariant(&*centers);
    }
    let num_center = centers.nrows();
    let count = if order.len() < num_center {
        order.len()
    } else {
        num_center
    };
    for t in 0..count
        invariant
            x.wf(),
            centers.wf(),
            x.n_cols() == centers.n_cols(),
            centers.n_cols() == old(centers).n_cols(),
            indices_below(order@, x@.len()),
            num_center == old(centers)@.len(),
            count <= num_center,
            count <= order@.len(),
            centers@.len() == num_center,
            forall|u: int| 0 <= u < t ==> (#[trigger] centers@[u]) == x@[order@[u] as int],
            forall|u: int| t <= u < num_center ==> (#[trigger] centers@[u]) == old(centers)@[u],
    {
        let k = order[t];
        assert(order@[t as int] < x@.len());
        assert(x@[k as int].len() == x.n_cols());
        let row = x.row(k);
        centers.set_row(t, row);
    }
    assert(centers@ =~= centers_from(x@, old(centers)@, order@));
}

/// Draws a random order of the rows of `x` from `seed` and copies the rows it
/// names first over the rows of `centers`: with at least as many rows as
/// centers, every center becomes a different row of `x`.
pub fn sample_centers<T: Copy>(x: &Matrix<T>, centers: &mut Matrix<T>, seed: u64)
    requires
        x.n_cols() == old(centers).n_cols(),
    ensures
        final(centers).wf(),
        final(centers).n_cols() == old(centers).n_cols(),
        exists|p: Seq<usize>|
            is_permutation_of_range(p, x@.len()) && final(centers)@ == #[trigger] centers_from(
                x@,
                old(centers)@,
                p,
            ),
{
    proof {
        use_type_invariant(x);
        use_type_invariant(&*centers);
    }
    let order = row_order(x.nrows(), true, seed);
    proof {
        lemma_permutation_facts(order@, x@.len());
    }
    select_centers(x, centers, &order);
}

} // verus!
