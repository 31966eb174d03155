use vstd::prelude::*;

use rand::seq::SliceRandom;
use rand::SeedableRng;

use vstd::slice::slice_subrange;

use crate::error::MlError;
use crate::matrix::{indices_below, select_rows, slice_by_row, Matrix};

verus! {

broadcast use vstd::seq_lib::group_to_multiset_ensures;

/// The indices `0, 1, ..., n - 1` in increasing order.
pub open spec fn range_seq(n: nat) -> Seq<usize> {
    Seq::new(n, |i: int| i as usize)
}

/// `p` holds each of the indices `0..n` exactly once, in some order.
pub open spec fn is_permutation_of_range(p: Seq<usize>, n: nat) -> bool {
    p.to_multiset() =~= range_seq(n).to_multiset()
}

/// A permutation of `0..n` has length `n`, holds no index twice, holds only
/// indices below `n`, and holds every one of them.
pub proof fn lemma_permutation_facts(p: Seq<usize>, n: nat)
    requires
        n <= usize::MAX + 1,
        is_permutation_of_range(p, n),
    ensures
        p.len() == n,
        p.no_duplicates(),
        indices_below(p, n),
        forall|i: usize| i < n ==> p.contains(i),
{
    let r = range_seq(n);
    assert(r.no_duplicates());
    r.lemma_multiset_has_no_duplicates();
    assert(p.len() == p.to_multiset().len());
    assert(r.len() == r.to_multiset().len());
    assert forall|x: usize| p.to_multiset().contains(x) implies p.to_multiset().count(x) == 1 by {
        assert(r.to_multiset().contains(x));
    }
    p.lemma_multiset_has_no_duplicates_conv();
    assert forall|i: int| 0 <= i < p.len() implies (#[trigger] p[i]) < n by {
        assert(p.contains(p[i]));
        assert(p.to_multiset().count(p[i]) > 0);
        assert(r.contains(p[i]));
        let j = choose|j: int| 0 <= j < r.len() && r[j] == p[i];
        assert(r[j] == j as usize);
    }
    assert forall|i: usize| i < n implies p.contains(i) by {
        assert(r[i as int] == i);
        assert(r.contains(i));
        assert(r.to_multiset().count(i) > 0);
    }
}

/// Splitting a permutation of the row indices `0..n` after its first `k`
/// entries gives a test part and a train part whose sizes add up to `n`, that
/// share no index, and that together hold every index below `n`.
pub proof fn lemma_split_partition(p: Seq<usize>, n: nat, k: nat)
    requires
        n <= usize::MAX + 1,
        is_permutation_of_range(p, n),
        k <= n,
    ensures
        p.take(k as int).len() + p.skip(k as int).len() == n,
        forall|a: int, b: int|
            0 <= a < k && 0 <= b < n - k ==> #[trigger] p.take(k as int)[a] != #[trigger] p.skip(
                k as int,
            )[b],
        forall|i: usize|
            i < n ==> #[trigger] p.take(k as int).contains(i) || p.skip(k as int).contains(i),
{
    lemma_permutation_facts(p, n);
    assert forall|a: int, b: int|
        0 <= a < k && 0 <= b < n - k implies #[trigger] p.take(k as int)[a] != #[trigger] p.skip(
        k as int,
    )[b] by {
        assert(p.take(k as int)[a] == p[a]);
        assert(p.skip(k as int)[b] == p[k + b]);
    }
    assert forall|i: usize| i < n implies #[trigger] p.take(k as int).contains(i) || p.skip(
        k as int,
    ).contains(i) by {
        assert(p.contains(i));
        let j = choose|j: int| 0 <= j < p.len() && p[j] == i;
        if j < k {
            assert(p.take(k as int)[j] == i);
        } else {
            assert(p.skip(k as int)[j - k] == i);
        }
    }
}

/// Relies on rand's `SliceRandom::shuffle`, driven by a `StdRng` made with
/// `SeedableRng::seed_from_u64`: the shuffle only swaps entries, so the
/// result is a rearrangement of the input.
#[verifier::external_body]
fn shuffle_seeded(v: &mut Vec<usize>, seed: u64)
    ensures
        final(v)@.to_multiset() == old(v)@.to_multiset(),
{
    let mut rng = rand::rngs::StdRng::seed_from_u64(seed);
    v.shuffle(&mut rng);
}

/// The indices `0..n` in increasing order.
pub fn index_range(n: usize) -> (r: Vec<usize>)
    ensures
        r@ == range_seq(n as nat),
{
    let mut r: Vec<usize> = Vec::new();
    for i in 0..n
        invariant
            r@ == range_seq(i as nat),
    {
        r.push(i);
        assert(r@ =~= range_seq((i + 1) as nat));
    }
    r
}

/// The indices `0..n` in the order of a shuffle drawn from `seed`, or in
/// increasing order where `shuffle` is false.
pub fn row_order(n: usize, shuffle: bool, seed: u64) -> (r: Vec<usize>)
    ensures
        is_permutation_of_range(r@, n as nat),
        !shuffle ==> r@ == range_seq(n as nat),
{
    let mut r = index_range(n);
    if shuffle {
        shuffle_seeded(&mut r, seed);
    }
    r
}

/// What a split of `x` and `y` into train and test rows along the row order
/// `p`, with the first `n_test` entries of `p` as the test rows, consists of.
pub open spec fn is_split_along<T>(
    x: Matrix<T>,
    y: Matrix<T>,
    p: Seq<usize>,
    n_test: nat,
    parts: (Matrix<T>, Matrix<T>, Matrix<T>, Matrix<T>),
) -> bool where T: Copy {
    let (x_train, x_test, y_train, y_test) = parts;
    &&& x_train.wf() && x_test.wf() && y_train.wf() && y_test.wf()
    &&& x_train.n_cols() == x.n_cols() && x_test.n_cols() == x.n_cols()
    &&& y_train.n_cols() == y.n_cols() && y_test.n_cols() == y.n_cols()
    &&& x_test@ == select_rows(x@, p.take(n_test as int))
    &&& x_train@ == select_rows(x@, p.skip(n_test as int))
    &&& y_test@ == select_rows(y@, p.take(n_test as int))
    &&& y_train@ == select_rows(y@, p.skip(n_test as int))
}

/// Splits the rows of `x` and `y` into `(x_train, x_test, y_train, y_test)`:
/// the rows are put in a random order drawn from `seed` (or kept in order
/// where `shuffle` is false), the first `n_test` become the test rows and the
/// rest the train rows. `x` and `y` must have the same number of rows, and
/// `n_test` must be at least one and at most that number.
pub fn train_test_split<T: Copy>(
    x: &Matrix<T>,
    y: &Matrix<T>,
    n_test: usize,
    shuffle: bool,
    seed: u64,
) -> (r: Result<(Matrix<T>, Matrix<T>, Matrix<T>, Matrix<T>), MlError>)
    ensures
        x@.len() != y@.len() ==> r == Err::<(Matrix<T>, Matrix<T>, Matrix<T>, Matrix<T>), MlError>(
            MlError::ShapeMismatch { expected: x@.len() as usize, found: y@.len() as usize },
        ),
        x@.len() == y@.len() && (n_test == 0 || n_test > x@.len()) ==> r == Err::<
            (Matrix<T>, Matrix<T>, Matrix<T>, Matrix<T>),
            MlError,
        >(MlError::InvalidConfiguration),
        x@.len() == y@.len() && 0 < n_test <= x@.len() ==> r is Ok,
        r matches Ok(parts) ==> {
            &&& parts.0@.len() + parts.1@.len() == x@.len()
            &&& parts.2@.len() + parts.3@.len() == y@.len()
            &&& parts.1@.len() == n_test
            &&& exists|p: Seq<usize>|
                {
                    &&& is_permutation_of_range(p, x@.len())
                    &&& (!shuffle ==> p == range_seq(x@.len()))
                    &&& #[trigger] is_split_along(*x, *y, p, n_test as nat, parts)
                }
        },
{
    proof {
        use_type_invariant(x);
        use_type_invariant(y);
    }
    let n = x.nrows();
    if n != y.nrows() {
        return Err(MlError::ShapeMismatch { expected: n, found: y.nrows() });
    }
    if n_test == 0 || n_test > n {
        return Err(MlError::InvalidConfiguration);
    }
    let order = row_order(n, shuffle, seed);
    proof {
        lemma_permutation_facts(order@, n as nat);
    }
    let test_idx = slice_subrange(order.as_slice(), 0, n_test);
    assert(order@.take(n_test as int) =~= order@.subrange(0, n_test as int));
    let train_idx = slice_subrange(order.as_slice(), n_test, n);
    assert(order@.skip(n_test as int) =~= order@.subrange(n_test as int, n as int));
    let x_train = slice_by_row(x, train_idx);
    let x_test = slice_by_row(x, test_idx);
    let y_train = slice_by_row(y, train_idx);
    let y_test = slice_by_row(y, test_idx);
    let parts = (x_train, x_test, y_train, y_test);
    assert(is_split_along(*x, *y, order@, n_test as nat, parts));
    Ok(parts)
}

} // verus!
