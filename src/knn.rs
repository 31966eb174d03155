use vstd::prelude::*;

use crate::error::MlError;
use crate::matrix::Matrix;

verus! {

/// A nearest-neighbour classifier: the training points, their labels (one
/// per row) and the number of neighbours that vote.
pub struct KNN<T> {
    pub x: Matrix<T>,
    pub y: Matrix<T>,
    pub n_neighborhood: usize,
}

impl<T: Copy> KNN<T> {
    /// A classifier over the given training points and labels.
    pub fn new(x: Matrix<T>, y: Matrix<T>, n_neighborhood: usize) -> (r: KNN<T>)
        ensures
            r.x == x,
            r.y == y,
            r.n_neighborhood == n_neighborhood,
    {
        KNN { x, y, n_neighborhood }
    }

    /// Checks the classifier before any distance is computed: one label row
    /// per training point, one label per row, and a neighbourhood of at least
    /// one and at most as many points as there are.
    pub fn validate(&self) -> (r: Result<(), MlError>)
        ensures
            r is Ok <==> (self.y@.len() == self.x@.len() && self.y.n_cols() == 1 && 0
                < self.n_neighborhood <= self.x@.len()),
            self.y@.len() != self.x@.len() ==> r == Err::<(), MlError>(
                MlError::ShapeMismatch {
                    expected: self.x@.len() as usize,
                    found: self.y@.len() as usize,
                },
            ),
            self.y@.len() == self.x@.len() && self.y.n_cols() != 1 ==> r == Err::<(), MlError>(
                MlError::ShapeMismatch { expected: 1, found: self.y.n_cols() as usize },
            ),
            self.y@.len() == self.x@.len() && self.y.n_cols() == 1 && !(0 < self.n_neighborhood
                <= self.x@.len()) ==> r == Err::<(), MlError>(MlError::InvalidConfiguration),
    {
        let n = self.x.nrows();
        if self.y.nrows() != n {
            return Err(MlError::ShapeMismatch { expected: n, found: self.y.nrows() });
        }
        if self.y.ncols() != 1 {
            return Err(MlError::ShapeMismatch { expected: 1, found: self.y.ncols() });
        }
        if self.n_neighborhood == 0 || self.n_neighborhood > n {
            return Err(MlError::InvalidConfiguration);
        }
        Ok(())
    }
}

/// How many entries of `s` equal `v`.
pub open spec fn count_of(s: Seq<u32>, v: u32) -> nat
    decreases s.len(),
{
    if s.len() == 0 {
        0
    } else {
        count_of(s.drop_last(), v) + if s.last() == v {
            1nat
        } else {
            0nat
        }
    }
}

/// `w[i]` is the winner of a majority vote over `w`: no label occurs more
/// often than it, and every label before position `i` occurs less often (a
/// tie goes to the label that comes first, that is to the nearest neighbour).
pub open spec fn is_vote_winner_at(w: Seq<u32>, i: int) -> bool {
    &&& 0 <= i < w.len()
    &&& forall|j: int| 0 <= j < w.len() ==> count_of(w, #[trigger] w[j]) <= count_of(w, w[i])
    &&& forall|j: int| 0 <= j < i ==> count_of(w, #[trigger] w[j]) < count_of(w, w[i])
}

/// How many of the first `k` labels equal `v`.
fn count_in_prefix(labels: &Vec<u32>, k: usize, v: u32) -> (r: usize)
    requires
        k <= labels@.len(),
    ensures
        r == count_of(labels@.take(k as int), v),
{
    let mut c: usize = 0;
    for i in 0..k
        invariant
            k <= labels@.len(),
            c == count_of(labels@.take(i as int), v),
            c <= i,
    {
        assert(labels@.take(i + 1).drop_last() =~= labels@.take(i as int));
        if labels[i] == v {
            c = c + 1;
        }
    }
    c
}

/// The majority label among the `k` nearest neighbours, given the labels of
/// all training points ordered from nearest to farthest. Ties go to the label
/// of the nearer neighbour. `k` must be at least one and at most the number of
/// labels.
pub fn majority_vote(nearest_labels: &Vec<u32>, k: usize) -> (r: Result<u32, MlError>)
    ensures
        (0 < k <= nearest_labels@.len()) <==> r is Ok,
        r matches Err(e) ==> e == MlError::InvalidConfiguration,
        r matches Ok(label) ==> exists|i: int|
            is_vote_winner_at(nearest_labels@.take(k as int), i) && label == #[trigger] nearest_labels@[i],
{
    if k == 0 || k > nearest_labels.len() {
        return Err(MlError::InvalidConfiguration);
    }
    let ghost w = nearest_labels@.take(k as int);
    let mut best_i: usize = 0;
    let mut best_c = count_in_prefix(nearest_labels, k, nearest_labels[0]);
    for i in 1..k
        invariant
            0 < k <= nearest_labels@.len(),
            w == nearest_labels@.take(k as int),
            best_i < i,
            best_c == count_of(w, w[best_i as int]),
            forall|j: int| 0 <= j < i ==> count_of(w, #[trigger] w[j]) <= best_c,
            forall|j: int| 0 <= j < best_i ==> count_of(w, #[trigger] w[j]) < best_c,
    {
        let c = count_in_prefix(nearest_labels, k, nearest_labels[i]);
        if c > best_c {
            best_i = i;
            best_c = c;
        }
    }
    assert(is_vote_winner_at(w, best_i as int));
    assert(w[best_i as int] == nearest_labels@[best_i as int]);
    Ok(nearest_labels[best_i])
}

/// With a single neighbour the vote returns that neighbour's label.
pub proof fn lemma_single_neighbour_vote(labels: Seq<u32>, label: u32)
    requires
        labels.len() >= 1,
        exists|i: int| is_vote_winner_at(labels.take(1), i) && label == #[trigger] labels[i],
    ensures
        label == labels[0],
{
    let i = choose|i: int| is_vote_winner_at(labels.take(1), i) && label == #[trigger] labels[i];
    assert(i == 0);
}

} // verus!
