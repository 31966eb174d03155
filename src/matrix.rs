use vstd::prelude::*;

use crate::error::MlError;

verus! {

/// A dense matrix held row by row; every row has `ncols` entries.
#[derive(Debug, PartialEq)]
pub struct Matrix<T> {
    ncols: usize,
    rows: Vec<Vec<T>>,
}

/// The rows of `m` named by `idx`, in the order of `idx`.
pub open spec fn select_rows<T>(m: Seq<Seq<T>>, idx: Seq<usize>) -> Seq<Seq<T>> {
    Seq::new(idx.len(), |i: int| m[idx[i] as int])
}

/// Every index of `idx` names a row of a matrix with `n` rows.
pub open spec fn indices_below(idx: Seq<usize>, n: nat) -> bool {
    forall|i: int| 0 <= i < idx.len() ==> (#[trigger] idx[i]) < n
}

impl<T> View for Matrix<T> {
    type V = Seq<Seq<T>>;

    closed spec fn view(&self) -> Seq<Seq<T>> {
        self.rows@.map_values(|r: Vec<T>| r@)
    }
}

/// Entry `(i, j)` of a row-major `r` by `c` layout lies inside it.
proof fn lemma_row_major_index(i: int, j: int, r: int, c: int)
    requires
        0 <= i < r,
        0 <= j < c,
    ensures
        0 <= i * c + j < r * c,
{
    assert(0 <= i * c) by (nonlinear_arith)
        requires
            0 <= i,
            0 <= c,
    ;
    assert(i * c + c <= r * c) by (nonlinear_arith)
        requires
            i < r,
            0 <= c,
    ;
}

/// A copy of `v`.
fn copy_vec<T: Copy>(v: &Vec<T>) -> (r: Vec<T>)
    ensures
        r@ == v@,
{
    let mut r: Vec<T> = Vec::new();
    let n = v.len();
    for k in 0..n
        invariant
            n == v@.len(),
            r@ == v@.subrange(0, k as int),
    {
        r.push(v[k]);
    }
    assert(r@ =~= v@);
    r
}

impl<T> Matrix<T> {
    /// The number of columns, which every row has.
    pub closed spec fn n_cols(&self) -> nat {
        self.ncols as nat
    }

    /// Every row has `n_cols()` entries; every matrix satisfies this.
    #[verifier::type_invariant]
    pub open spec fn wf(&self) -> bool {
        forall|i: int| 0 <= i < self@.len() ==> (#[trigger] self@[i]).len() == self.n_cols()
    }
}

impl<T: Copy> Matrix<T> {
    /// A matrix of the given rows, each of which must have `ncols` entries.
    pub fn from_rows(ncols: usize, rows: Vec<Vec<T>>) -> (r: Result<Matrix<T>, MlError>)
        ensures
            (forall|i: int| 0 <= i < rows@.len() ==> (#[trigger] rows@[i])@.len() == ncols)
                <==> r is Ok,
            r matches Ok(m) ==> m.wf() && m.n_cols() == ncols && m@ == rows@.map_values(
                |v: Vec<T>| v@,
            ),
            r matches Err(e) ==> exists|i: int|
                0 <= i < rows@.len() && e == (MlError::ShapeMismatch {
                    expected: ncols,
                    found: (#[trigger] rows@[i])@.len() as usize,
                }),
    {
        let n = rows.len();
        for i in 0..n
            invariant
                n == rows@.len(),
                forall|p: int| 0 <= p < i ==> (#[trigger] rows@[p])@.len() == ncols,
        {
            if rows[i].len() != ncols {
                return Err(MlError::ShapeMismatch { expected: ncols, found: rows[i].len() });
            }
        }
        Ok(Matrix { ncols, rows })
    }

    /// A matrix of the given shape whose entries are read row by row from
    /// `data`, which must hold exactly `nrows * ncols` of them.
    pub fn from_row_slice(nrows: usize, ncols: usize, data: &[T]) -> (r: Result<
        Matrix<T>,
        MlError,
    >)
        ensures
            r is Ok <==> data@.len() == nrows * ncols,
            r matches Ok(m) ==> {
                &&& m.wf()
                &&& m@.len() == nrows
                &&& m.n_cols() == ncols
                &&& forall|i: int, j: int|
                    0 <= i < nrows && 0 <= j < ncols ==> #[trigger] m@[i][j] == data@[i * ncols + j]
            },
            r matches Err(e) ==> e == (MlError::ShapeMismatch {
                expected: if nrows * ncols <= usize::MAX {
                    (nrows * ncols) as usize
                } else {
                    usize::MAX
                },
                found: data@.len() as usize,
            }),
    {
        match nrows.checked_mul(ncols) {
            Some(total) => {
                if total != data.len() {
                    return Err(MlError::ShapeMismatch { expected: total, found: data.len() });
                }
            },
            None => {
                return Err(MlError::ShapeMismatch { expected: usize::MAX, found: data.len() });
            },
        }
        let len = data.len();
        let mut rows: Vec<Vec<T>> = Vec::new();
        for i in 0..nrows
            invariant
                len == data@.len(),
                data@.len() == nrows * ncols,
                rows@.len() == i,
                forall|p: int| 0 <= p < i ==> (#[trigger] rows@[p])@.len() == ncols,
                forall|p: int, q: int|
                    0 <= p < i && 0 <= q < ncols ==> #[trigger] rows@[p]@[q] == data@[p * ncols
                        + q],
        {
            let mut row: Vec<T> = Vec::new();
            for j in 0..ncols
                invariant
                    i < nrows,
                    len == data@.len(),
                    data@.len() == nrows * ncols,
                    row@.len() == j,
                    forall|q: int| 0 <= q < j ==> #[trigger] row@[q] == data@[i * ncols + q],
            {
                proof {
                    lemma_row_major_index(i as int, j as int, nrows as int, ncols as int);
                }
                row.push(data[i * ncols + j]);
            }
            rows.push(row);
        }
        let m = Matrix { ncols, rows };
        assert forall|i: int, j: int| 0 <= i < nrows && 0 <= j < ncols implies #[trigger] m@[i][j]
            == data@[i * ncols + j] by {
            assert(m@[i] == m.rows@[i]@);
        }
        assert forall|i: int| 0 <= i < m@.len() implies (#[trigger] m@[i]).len() == m.n_cols() by {
            assert(m@[i] == m.rows@[i]@);
        }
        Ok(m)
    }

    /// A matrix of the given shape with every entry equal to `value`.
    pub fn filled(nrows: usize, ncols: usize, value: T) -> (r: Matrix<T>)
        ensures
            r.wf(),
            r@.len() == nrows,
            r.n_cols() == ncols,
            forall|i: int, j: int| 0 <= i < nrows && 0 <= j < ncols ==> r@[i][j] == value,
    {
        let mut row: Vec<T> = Vec::new();
        for j in 0..ncols
            invariant
                row@.len() == j,
                forall|q: int| 0 <= q < j ==> row@[q] == value,
        {
            row.push(value);
        }
        let mut rows: Vec<Vec<T>> = Vec::new();
        for i in 0..nrows
            invariant
                rows@.len() == i,
                row@.len() == ncols,
                forall|q: int| 0 <= q < ncols ==> row@[q] == value,
                forall|p: int| 0 <= p < i ==> (#[trigger] rows@[p])@ == row@,
        {
            rows.push(copy_vec(&row));
        }
        Matrix { ncols, rows }
    }

    /// The number of rows.
    pub fn nrows(&self) -> (r: usize)
        ensures
            r == self@.len(),
    {
        self.rows.len()
    }

    /// The number of columns.
    pub fn ncols(&self) -> (r: usize)
        ensures
            r == self.n_cols(),
    {
        self.ncols
    }

    /// The number of rows and the number of columns.
    pub fn shape(&self) -> (r: (usize, usize))
        ensures
            r.0 == self@.len(),
            r.1 == self.n_cols(),
    {
        (self.rows.len(), self.ncols)
    }

    /// The entry in row `i` and column `j`.
    pub fn get(&self, i: usize, j: usize) -> (r: T)
        requires
            i < self@.len(),
            j < self.n_cols(),
        ensures
            r == self@[i as int][j as int],
    {
        proof {
            use_type_invariant(&*self);
        }
        assert(self@[i as int].len() == self.n_cols());
        self.rows[i][j]
    }

    /// A copy of row `i`.
    pub fn row(&self, i: usize) -> (r: Vec<T>)
        requires
            i < self@.len(),
        ensures
            r@ == self@[i as int],
    {
        copy_vec(&self.rows[i])
    }

    /// Overwrites the entry in row `i` and column `j` with `value`.
    pub fn set(&mut self, i: usize, j: usize, value: T)
        requires
            i < old(self)@.len(),
            j < old(self).n_cols(),
        ensures
            final(self).wf(),
            final(self).n_cols() == old(self).n_cols(),
            final(self)@ == old(self)@.update(i as int, old(self)@[i as int].update(j as int, value)),
    {
        proof {
            use_type_invariant(&*self);
        }
        assert(self@[i as int].len() == self.n_cols());
        let mut row = copy_vec(&self.rows[i]);
        row.set(j, value);
        self.set_row(i, row);
    }

    /// Overwrites row `i` with `row`, which must have one entry per column.
    pub fn set_row(&mut self, i: usize, row: Vec<T>)
        requires
            i < old(self)@.len(),
            row@.len() == old(self).n_cols(),
        ensures
            final(self).wf(),
            final(self).n_cols() == old(self).n_cols(),
            final(self)@ == old(self)@.update(i as int, row@),
    {
        proof {
            use_type_invariant(&*self);
        }
        let mut rows: Vec<Vec<T>> = Vec::new();
        std::mem::swap(&mut rows, &mut self.rows);
        rows.set(i, row);
        assert forall|k: int| 0 <= k < rows@.len() implies (#[trigger] rows@[k])@.len()
            == old(self).n_cols() by {
            if k != i {
                assert(old(self)@[k] == old(self).rows@[k]@);
            }
        }
        self.rows = rows;
        assert(self@ =~= old(self)@.update(i as int, row@));
    }

    /// The rows, each as a vector of its entries.
    pub fn to_rows(&self) -> (r: Vec<Vec<T>>)
        ensures
            r@.map_values(|v: Vec<T>| v@) == self@,
    {
        let mut r: Vec<Vec<T>> = Vec::new();
        let n = self.rows.len();
        for i in 0..n
            invariant
                n == self@.len(),
                r@.len() == i,
                forall|p: int| 0 <= p < i ==> (#[trigger] r@[p])@ == self@[p],
        {
            r.push(copy_vec(&self.rows[i]));
        }
        assert(r@.map_values(|v: Vec<T>| v@) =~= self@);
        r
    }
}

/// A copy of `m`, entry for entry.
pub fn flat_matrix<T: Copy>(m: &Matrix<T>) -> (r: Matrix<T>)
    ensures
        r.wf(),
        r.n_cols() == m.n_cols(),
        r@ == m@,
{
    proof {
        use_type_invariant(m);
    }
    let rows = m.to_rows();
    Matrix { ncols: m.ncols, rows }
}

/// A new matrix of the rows of `a` named by `idx`, in the order of `idx`;
/// an index may repeat. Row `i` of the result is row `idx[i]` of `a`.
pub fn slice_by_row<T: Copy>(a: &Matrix<T>, idx: &[usize]) -> (r: Matrix<T>)
    requires
        indices_below(idx@, a@.len()),
    ensures
        r.wf(),
        r@.len() == idx@.len(),
        r.n_cols() == a.n_cols(),
        r@ == select_rows(a@, idx@),
{
    proof {
        use_type_invariant(a);
    }
    let mut rows: Vec<Vec<T>> = Vec::new();
    let n = idx.len();
    for i in 0..n
        invariant
            n == idx@.len(),
            a.wf(),
            indices_below(idx@, a@.len()),
            rows@.len() == i,
            forall|p: int| 0 <= p < i ==> (#[trigger] rows@[p])@ == a@[idx@[p] as int],
    {
        let k = idx[i];
        assert(idx@[i as int] < a@.len());
        rows.push(a.row(k));
    }
    let r = Matrix { ncols: a.ncols, rows };
    assert(r@ =~= select_rows(a@, idx@));
    r
}

/// Splits a table whose last column is the target into the feature matrix
/// (every column but the last) and the one-column target matrix.
pub fn split_last_column<T: Copy>(m: &Matrix<T>) -> (r: (Matrix<T>, Matrix<T>))
    requires
        m.n_cols() >= 1,
    ensures
        r.0.wf() && r.1.wf(),
        r.0.n_cols() == m.n_cols() - 1,
        r.1.n_cols() == 1,
        r.0@.len() == m@.len() && r.1@.len() == m@.len(),
        forall|i: int|
            0 <= i < m@.len() ==> (#[trigger] r.0@[i]) == m@[i].drop_last() && r.1@[i] == seq![
                m@[i].last(),
            ],
{
    proof {
        use_type_invariant(m);
    }
    let n = m.nrows();
    let p = m.ncols() - 1;
    let mut features: Vec<Vec<T>> = Vec::new();
    let mut target: Vec<Vec<T>> = Vec::new();
    for i in 0..n
        invariant
            n == m@.len(),
            p == m.n_cols() - 1,
            m.wf(),
            features@.len() == i,
            target@.len() == i,
            forall|q: int| 0 <= q < i ==> (#[trigger] features@[q])@ == m@[q].drop_last(),
            forall|q: int| 0 <= q < i ==> (#[trigger] target@[q])@ == seq![m@[q].last()],
    {
        let row = m.row(i);
        assert(row@.len() == p + 1);
        let mut f: Vec<T> = Vec::new();
        for j in 0..p
            invariant
                p + 1 == row@.len(),
                f@ == row@.subrange(0, j as int),
        {
            f.push(row[j]);
        }
        assert(f@ =~= row@.drop_last());
        let mut t: Vec<T> = Vec::new();
        t.push(row[p]);
        assert(t@ =~= seq![row@.last()]);
        features.push(f);
        target.push(t);
    }
    let x = Matrix { ncols: p, rows: features };
    let y = Matrix { ncols: 1, rows: target };
    assert forall|i: int| 0 <= i < m@.len() implies (#[trigger] x@[i]) == m@[i].drop_last()
        && y@[i] == seq![m@[i].last()] by {
        assert(x@[i] == x.rows@[i]@);
        assert(y@[i] == y.rows@[i]@);
    }
    (x, y)
}

/// A new matrix of `m` with `column` appended as its last column; the column
/// must have one entry per row.
pub fn append_column<T: Copy>(m: &Matrix<T>, column: Vec<T>) -> (r: Result<Matrix<T>, MlError>)
    requires
        m.n_cols() < usize::MAX,
    ensures
        r is Ok <==> column@.len() == m@.len(),
        r matches Ok(res) ==> res.wf() && res.n_cols() == m.n_cols() + 1 && res@.len()
            == m@.len() && forall|i: int|
            0 <= i < m@.len() ==> (#[trigger] res@[i]) == m@[i].push(column@[i]),
        r matches Err(e) ==> e == (MlError::ShapeMismatch {
            expected: m@.len() as usize,
            found: column@.len() as usize,
        }),
{
    proof {
        use_type_invariant(m);
    }
    let n = m.nrows();
    if column.len() != n {
        return Err(MlError::ShapeMismatch { expected: n, found: column.len() });
    }
    let mut rows: Vec<Vec<T>> = Vec::new();
    for i in 0..n
        invariant
            n == m@.len(),
            column@.len() == n,
            m.wf(),
            rows@.len() == i,
            forall|p: int| 0 <= p < i ==> (#[trigger] rows@[p])@ == m@[p].push(column@[p]),
            forall|p: int| 0 <= p < i ==> (#[trigger] rows@[p])@.len() == m.n_cols() + 1,
    {
        let mut row = m.row(i);
        assert(m@[i as int].len() == m.n_cols());
        row.push(column[i]);
        rows.push(row);
    }
    let r = Matrix { ncols: m.ncols + 1, rows };
    assert forall|i: int| 0 <= i < r@.len() implies (#[trigger] r@[i]).len() == r.n_cols() by {
        assert(r@[i] == r.rows@[i]@);
    }
    Ok(r)
}

} // verus!
