use vstd::prelude::*;

use crate::error::MlError;

verus! {

/// At how many positions `a` and `b` hold the same label, over the positions
/// that both have.
pub open spec fn matches_count(a: Seq<u32>, b: Seq<u32>) -> nat
    decreases a.len(),
{
    if a.len() == 0 || b.len() == 0 {
        0
    } else {
        matches_count(a.drop_last(), b.take(a.len() - 1)) + if a.last() == b[a.len() - 1] {
            1nat
        } else {
            0nat
        }
    }
}

/// The number of positions at which the predicted labels equal the target
/// labels; accuracy is this count over the number of targets. The two must
/// have the same length.
pub fn count_matches(y_hat: &Vec<u32>, y_target: &Vec<u32>) -> (r: Result<usize, MlError>)
    ensures
        y_hat@.len() != y_target@.len() ==> r == Err::<usize, MlError>(
            MlError::ShapeMismatch {
                expected: y_target@.len() as usize,
                found: y_hat@.len() as usize,
            },
        ),
        y_hat@.len() == y_target@.len() ==> r == Ok::<usize, MlError>(
            matches_count(y_hat@, y_target@) as usize,
        ),
{
    let n = y_target.len();
    if y_hat.len() != n {
        return Err(MlError::ShapeMismatch { expected: n, found: y_hat.len() });
    }
    let mut c: usize = 0;
    for i in 0..n
        invariant
            n == y_hat@.len(),
            n == y_target@.len(),
            c == matches_count(y_hat@.take(i as int), y_target@.take(i as int)),
            c <= i,
    {
        assert(y_hat@.take(i + 1).drop_last() =~= y_hat@.take(i as int));
        assert(y_target@.take(i + 1).take(i as int) =~= y_target@.take(i as int));
        if y_hat[i] == y_target[i] {
            c = c + 1;
        }
    }
    assert(y_hat@.take(n as int) =~= y_hat@);
    assert(y_target@.take(n as int) =~= y_target@);
    Ok(c)
}

/// The match count of two label sequences of one length lies between zero
/// and that length, equals the length where the sequences are equal, and is
/// zero where they differ at every position; accuracy therefore lies in
/// `[0, 1]`, is one on identical labels and zero where nothing matches.
pub proof fn lemma_accuracy_bounds(a: Seq<u32>, b: Seq<u32>)
    requires
        a.len() == b.len(),
    ensures
        matches_count(a, b) <= a.len(),
        a == b ==> matches_count(a, b) == a.len(),
        (forall|i: int| 0 <= i < a.len() ==> a[i] != b[i]) ==> matches_count(a, b) == 0,
    decreases a.len(),
{
    if a.len() > 0 {
        let n = a.len() - 1;
        lemma_accuracy_bounds(a.drop_last(), b.take(n));
        if a == b {
            assert(a.drop_last() =~= b.take(n));
        }
        if forall|i: int| 0 <= i < a.len() ==> a[i] != b[i] {
            assert forall|i: int| 0 <= i < n implies a.drop_last()[i] != b.take(n)[i] by {
                assert(a[i] != b[i]);
            }
            assert(a[n] != b[n]);
        }
    }
}

} // verus!
