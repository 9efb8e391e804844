//! Square matrices of a fixed, type-level dimension.

use vstd::prelude::*;

use crate::algebra::{
    column, dot_in_range, dot_prefix, dot_spec, identity_spec, in_i64, mat_add_in_range,
    mat_add_spec, mat_mul_in_range, mat_mul_spec, mat_scale_in_range, mat_scale_spec,
    mat_sub_in_range, mat_sub_spec, mat_vec_in_range, mat_vec_spec, scale_in_range, scale_spec,
    square, sub_in_range, sub_spec,
};
use crate::vector::Vector;

verus! {

/// A square matrix of `N` by `N` integer entries, indexable by a row and
/// column pair. The dimension is part of the type.
///
/// Matrices have value semantics: every operation returns a new matrix and
/// leaves its operands untouched.
#[derive(Clone, Debug)]
pub struct Matrix<const N: usize> {
    rows: Vec<Vec<i64>>,
}

impl<const N: usize> View for Matrix<N> {
    type V = Seq<Seq<int>>;

    closed spec fn view(&self) -> Seq<Seq<int>> {
        self.rows@.map(|_i: int, r: Vec<i64>| r@.map(|_j: int, v: i64| v as int))
    }
}

impl<const N: usize> Matrix<N> {
    /// A matrix is well-formed when it is square of dimension `N`. Every
    /// constructor establishes this and every operation preserves it.
    pub open spec fn wf(&self) -> bool {
        square(self@, N as nat)
    }

    /// Each row of the view is the view of the stored row; in particular the
    /// stored rows are as long as the view says.
    proof fn lemma_rows_view(&self)
        ensures
            forall|i: int|
                0 <= i < self.rows@.len() ==> self@[i] == (#[trigger] self.rows@[i])@.map(
                    |_j: int, v: i64| v as int,
                ) && self@[i].len() == self.rows@[i]@.len(),
    {
    }

    /// Constructs a zero matrix.
    pub fn zero() -> (r: Self)
        ensures
            r.wf(),
            forall|i: int, j: int| 0 <= i < N && 0 <= j < N ==> r@[i][j] == 0,
    {
        let mut rows: Vec<Vec<i64>> = Vec::new();
        let mut i: usize = 0;
        while i < N
            invariant
                i <= N,
                rows@.len() == i,
                forall|t: int| 0 <= t < i ==> (#[trigger] rows@[t])@.len() == N,
                forall|t: int, j: int| 0 <= t < i && 0 <= j < N ==> rows@[t]@[j] == 0i64,
            decreases N - i,
        {
            let mut row: Vec<i64> = Vec::new();
            let mut j: usize = 0;
            while j < N
                invariant
                    j <= N,
                    row@.len() == j,
                    forall|k: int| 0 <= k < j ==> row@[k] == 0i64,
                decreases N - j,
            {
                row.push(0);
                j = j + 1;
            }
            rows.push(row);
            i = i + 1;
        }
        Matrix { rows }
    }

    /// Constructs an identity matrix: ones on the diagonal, zeros elsewhere.
    pub fn identity() -> (r: Self)
        ensures
            r.wf(),
            r@ == identity_spec(N as nat),
    {
        let mut rows: Vec<Vec<i64>> = Vec::new();
        let mut i: usize = 0;
        while i < N
            invariant
                i <= N,
                rows@.len() == i,
                forall|t: int| 0 <= t < i ==> (#[trigger] rows@[t])@.len() == N,
                forall|t: int, j: int|
                    0 <= t < i && 0 <= j < N ==> rows@[t]@[j] == (if t == j {
                        1i64
                    } else {
                        0i64
                    }),
            decreases N - i,
        {
            let mut row: Vec<i64> = Vec::new();
            let mut j: usize = 0;
            while j < N
                invariant
                    i < N,
                    j <= N,
                    row@.len() == j,
                    forall|k: int|
                        0 <= k < j ==> row@[k] == (if i as int == k {
                            1i64
                        } else {
                            0i64
                        }),
                decreases N - j,
            {
                if j == i {
                    row.push(1);
                } else {
                    row.push(0);
                }
                j = j + 1;
            }
            rows.push(row);
            i = i + 1;
        }
        let r = Matrix { rows };
        assert(r@ =~~= identity_spec(N as nat));
        r
    }

    /// Constructs a matrix of the provided rows of values.
    pub fn new(rows: Vec<Vec<i64>>) -> (r: Self)
        requires
            rows@.len() == N,
            forall|i: int| 0 <= i < N ==> (#[trigger] rows@[i])@.len() == N,
        ensures
            r.wf(),
            forall|i: int, j: int|
                0 <= i < N && 0 <= j < N ==> #[trigger] r@[i][j] == rows@[i]@[j] as int,
    {
        Matrix { rows }
    }

    /// Reads the entry at the given row and column.
    pub fn get(&self, row: usize, col: usize) -> (r: i64)
        requires
            self.wf(),
            row < N,
            col < N,
        ensures
            r as int == self@[row as int][col as int],
    {
        proof {
            self.lemma_rows_view();
        }
        self.rows[row][col]
    }

    /// Replaces the entry at the given row and column.
    pub fn set(&mut self, row: usize, col: usize, value: i64)
        requires
            old(self).wf(),
            row < N,
            col < N,
        ensures
            final(self).wf(),
            final(self)@ == old(self)@.update(
                row as int,
                old(self)@[row as int].update(col as int, value as int),
            ),
    {
        proof {
            self.lemma_rows_view();
        }
        self.rows[row][col] = value;
        proof {
            self.lemma_rows_view();
        }
        assert(final(self)@ =~~= old(self)@.update(
            row as int,
            old(self)@[row as int].update(col as int, value as int),
        ));
    }

    /// Swaps rows `i` and `j`: the first elementary row operation of
    /// Gauss-Jordan elimination.
    pub fn swaprow(&mut self, i: usize, j: usize)
        requires
            old(self).wf(),
            i < N,
            j < N,
        ensures
            final(self).wf(),
            final(self)@ == old(self)@.update(i as int, old(self)@[j as int]).update(
                j as int,
                old(self)@[i as int],
            ),
    {
        let mut k: usize = 0;
        while k < N
            invariant
                self@.len() == N,
                forall|t: int| 0 <= t < N ==> (#[trigger] self@[t]).len() == N,
                old(self).wf(),
                i < N,
                j < N,
                k <= N,
                forall|t: int| 0 <= t < N && t != i && t != j ==> self@[t] == old(self)@[t],
                forall|u: int|
                    0 <= u < k ==> self@[i as int][u] == old(self)@[j as int][u] && self@[j as int][u]
                        == old(self)@[i as int][u],
                forall|u: int|
                    k <= u < N ==> self@[i as int][u] == old(self)@[i as int][u] && self@[j as int][u]
                        == old(self)@[j as int][u],
            decreases N - k,
        {
            proof {
                self.lemma_rows_view();
            }
            let a = self.rows[i][k];
            let b = self.rows[j][k];
            self.rows[i][k] = b;
            proof {
                self.lemma_rows_view();
            }
            self.rows[j][k] = a;
            proof {
                self.lemma_rows_view();
            }
            k = k + 1;
        }
        assert(final(self)@ =~~= old(self)@.update(i as int, old(self)@[j as int]).update(
            j as int,
            old(self)@[i as int],
        ));
    }

    /// Scales row `i` by the factor `s`: the second elementary row operation
    /// of Gauss-Jordan elimination.
    pub fn scalerow(&mut self, i: usize, s: i64)
        requires
            old(self).wf(),
            i < N,
            scale_in_range(s as int, old(self)@[i as int]),
        ensures
            final(self).wf(),
            final(self)@ == old(self)@.update(i as int, scale_spec(s as int, old(self)@[i as int])),
    {
        let mut k: usize = 0;
        while k < N
            invariant
                self@.len() == N,
                forall|t: int| 0 <= t < N ==> (#[trigger] self@[t]).len() == N,
                old(self).wf(),
                scale_in_range(s as int, old(self)@[i as int]),
                i < N,
                k <= N,
                forall|t: int| 0 <= t < N && t != i ==> self@[t] == old(self)@[t],
                forall|u: int| 0 <= u < k ==> self@[i as int][u] == s as int * old(self)@[i as int][u],
                forall|u: int| k <= u < N ==> self@[i as int][u] == old(self)@[i as int][u],
            decreases N - k,
        {
            proof {
                self.lemma_rows_view();
            }
            assert(self.rows@[i as int]@[k as int] as int == self@[i as int][k as int]);
            assert(self@[i as int][k as int] == old(self)@[i as int][k as int]);
            assert(in_i64(s as int * old(self)@[i as int][k as int]));
            let ghost prev = self@;
            let value = self.rows[i][k] * s;
            self.rows[i][k] = value;
            proof {
                self.lemma_rows_view();
                assert forall|t: int| 0 <= t < N && t != i implies self@[t] == prev[t] by {
                    assert(self@[t] =~= prev[t]);
                }
                assert(self@[i as int] =~= prev[i as int].update(k as int, value as int));
            }
            k = k + 1;
        }
        assert(final(self)@ =~~= old(self)@.update(
            i as int,
            scale_spec(s as int, old(self)@[i as int]),
        ));
    }

    /// Subtracts `s` times row `j` from row `i`: the third elementary row
    /// operation of Gauss-Jordan elimination.
    pub fn subrow(&mut self, i: usize, j: usize, s: i64)
        requires
            old(self).wf(),
            i < N,
            j < N,
            scale_in_range(s as int, old(self)@[j as int]),
            sub_in_range(old(self)@[i as int], scale_spec(s as int, old(self)@[j as int])),
        ensures
            final(self).wf(),
            final(self)@ == old(self)@.update(
                i as int,
                sub_spec(old(self)@[i as int], scale_spec(s as int, old(self)@[j as int])),
            ),
    {
        let mut k: usize = 0;
        while k < N
            invariant
                self@.len() == N,
                forall|t: int| 0 <= t < N ==> (#[trigger] self@[t]).len() == N,
                old(self).wf(),
                scale_in_range(s as int, old(self)@[j as int]),
                sub_in_range(old(self)@[i as int], scale_spec(s as int, old(self)@[j as int])),
                i < N,
                j < N,
                k <= N,
                forall|t: int| 0 <= t < N && t != i ==> self@[t] == old(self)@[t],
                forall|u: int|
                    0 <= u < k ==> self@[i as int][u] == old(self)@[i as int][u] - s as int * old(
                        self,
                    )@[j as int][u],
                forall|u: int| k <= u < N ==> self@[i as int][u] == old(self)@[i as int][u],
                forall|u: int| k <= u < N ==> self@[j as int][u] == old(self)@[j as int][u],
            decreases N - k,
        {
            proof {
                self.lemma_rows_view();
            }
            assert(self.rows@[i as int]@[k as int] as int == self@[i as int][k as int]);
            assert(self.rows@[j as int]@[k as int] as int == self@[j as int][k as int]);
            assert(self@[i as int][k as int] == old(self)@[i as int][k as int]);
            assert(self@[j as int][k as int] == old(self)@[j as int][k as int]);
            assert(in_i64(s as int * old(self)@[j as int][k as int]));
            assert(scale_spec(s as int, old(self)@[j as int])[k as int] == s as int * old(
                self,
            )@[j as int][k as int]);
            assert(in_i64(
                old(self)@[i as int][k as int] - s as int * old(self)@[j as int][k as int],
            ));
            let ghost prev = self@;
            let value = self.rows[i][k] - s * self.rows[j][k];
            self.rows[i][k] = value;
            proof {
                self.lemma_rows_view();
                assert forall|t: int| 0 <= t < N && t != i implies self@[t] == prev[t] by {
                    assert(self@[t] =~= prev[t]);
                }
                assert(self@[i as int] =~= prev[i as int].update(k as int, value as int));
            }
            k = k + 1;
        }
        assert(final(self)@ =~~= old(self)@.update(
            i as int,
            sub_spec(old(self)@[i as int], scale_spec(s as int, old(self)@[j as int])),
        ));
    }

    /// Decomposes this matrix into its columns, each as a vector.
    ///
    /// This is useful for reading off the axes of a rotated coordinate
    /// system, and recomposing the columns reproduces the matrix.
    pub fn decompose(&self) -> (r: Vec<Vector<N>>)
        requires
            self.wf(),
        ensures
            r@.len() == N,
            forall|j: int| 0 <= j < N ==> (#[trigger] r@[j]).wf() && r@[j]@ == column(self@, j),
    {
        let mut cols: Vec<Vector<N>> = Vec::new();
        let mut j: usize = 0;
        while j < N
            invariant
                self.wf(),
                j <= N,
                cols@.len() == j,
                forall|t: int| 0 <= t < j ==> (#[trigger] cols@[t]).wf() && cols@[t]@ == column(self@, t),
            decreases N - j,
        {
            let mut col: Vec<i64> = Vec::new();
            let mut i: usize = 0;
            while i < N
                invariant
                    self.wf(),
                    j < N,
                    i <= N,
                    col@.len() == i,
                    forall|k: int| 0 <= k < i ==> col@[k] as int == self@[k][j as int],
                decreases N - i,
            {
                proof {
                    self.lemma_rows_view();
                }
                col.push(self.rows[i][j]);
                i = i + 1;
            }
            let ghost gcol = col@;
            let v = Vector::<N>::new(col);
            proof {
                assert forall|k: int| 0 <= k < N implies v@[k] == column(self@, j as int)[k] by {
                    assert(v@[k] == gcol[k] as int);
                }
                assert(v@ =~= column(self@, j as int));
            }
            cols.push(v);
            j = j + 1;
        }
        cols
    }

    /// Right-multiplies this matrix by the provided vector: coordinate `i`
    /// of the result is the dot product of row `i` with the vector.
    pub fn mult(&self, vector: &Vector<N>) -> (r: Vector<N>)
        requires
            self.wf(),
            vector.wf(),
            mat_vec_in_range(self@, vector@),
        ensures
            r.wf(),
            r@ == mat_vec_spec(self@, vector@),
    {
        let mut out: Vec<i64> = Vec::new();
        let mut i: usize = 0;
        while i < N
            invariant
                self.wf(),
                vector.wf(),
                mat_vec_in_range(self@, vector@),
                i <= N,
                out@.len() == i,
                forall|t: int| 0 <= t < i ==> out@[t] as int == dot_spec(self@[t], vector@),
            decreases N - i,
        {
            let mut acc: i64 = 0;
            let mut k: usize = 0;
            assert(dot_in_range(self@[i as int], vector@));
            while k < N
                invariant
                    self.wf(),
                    vector.wf(),
                    dot_in_range(self@[i as int], vector@),
                    i < N,
                    k <= N,
                    acc as int == dot_prefix(self@[i as int], vector@, k as int),
                decreases N - k,
            {
                assert(dot_prefix(self@[i as int], vector@, k as int + 1) == acc as int
                    + self@[i as int][k as int] * vector@[k as int]);
                assert(in_i64(self@[i as int][k as int] * vector@[k as int]));
                assert(in_i64(dot_prefix(self@[i as int], vector@, k as int + 1)));
                proof {
                    self.lemma_rows_view();
                }
                acc = acc + self.rows[i][k] * vector.get(k);
                k = k + 1;
            }
            out.push(acc);
            i = i + 1;
        }
        let ghost gout = out@;
        let r = Vector::<N>::new(out);
        proof {
            assert forall|t: int| 0 <= t < N implies r@[t] == mat_vec_spec(self@, vector@)[t] by {
                assert(r@[t] == gout[t] as int);
            }
            assert(r@ =~= mat_vec_spec(self@, vector@));
        }
        r
    }

    /// Right-multiplies this matrix by the provided matrix: entry `(i, j)`
    /// of the result is the dot product of row `i` of this matrix with
    /// column `j` of the other.
    pub fn matmult(&self, other: &Matrix<N>) -> (r: Matrix<N>)
        requires
            self.wf(),
            other.wf(),
            mat_mul_in_range(self@, other@),
        ensures
            r.wf(),
            r@ == mat_mul_spec(self@, other@),
    {
        let mut rows: Vec<Vec<i64>> = Vec::new();
        let mut i: usize = 0;
        while i < N
            invariant
                self.wf(),
                other.wf(),
                mat_mul_in_range(self@, other@),
                i <= N,
                rows@.len() == i,
                forall|t: int| 0 <= t < i ==> (#[trigger] rows@[t])@.len() == N,
                forall|t: int, u: int|
                    0 <= t < i && 0 <= u < N ==> rows@[t]@[u] as int == dot_spec(
                        self@[t],
                        column(other@, u),
                    ),
            decreases N - i,
        {
            let mut row: Vec<i64> = Vec::new();
            let mut j: usize = 0;
            while j < N
                invariant
                    self.wf(),
                    other.wf(),
                    mat_mul_in_range(self@, other@),
                    i < N,
                    j <= N,
                    row@.len() == j,
                    forall|u: int|
                        0 <= u < j ==> row@[u] as int == dot_spec(self@[i as int], column(other@, u)),
                decreases N - j,
            {
                let mut acc: i64 = 0;
                let mut k: usize = 0;
                assert(dot_in_range(self@[i as int], column(other@, j as int)));
                while k < N
                    invariant
                        self.wf(),
                        other.wf(),
                        dot_in_range(self@[i as int], column(other@, j as int)),
                        i < N,
                        j < N,
                        k <= N,
                        acc as int == dot_prefix(self@[i as int], column(other@, j as int), k as int),
                    decreases N - k,
                {
                    assert(dot_prefix(self@[i as int], column(other@, j as int), k as int + 1)
                        == acc as int + self@[i as int][k as int] * other@[k as int][j as int]);
                    assert(in_i64(self@[i as int][k as int] * other@[k as int][j as int]));
                    assert(in_i64(dot_prefix(self@[i as int], column(other@, j as int), k as int + 1)));
                    proof {
                        self.lemma_rows_view();
                        other.lemma_rows_view();
                    }
                    acc = acc + self.rows[i][k] * other.rows[k][j];
                    k = k + 1;
                }
                row.push(acc);
                j = j + 1;
            }
            rows.push(row);
            i = i + 1;
        }
        let r = Matrix { rows };
        assert(r@ =~~= mat_mul_spec(self@, other@));
        r
    }

    /// Scales the matrix by the provided scalar, returning the new matrix.
    pub fn scale(&self, scalar: i64) -> (r: Self)
        requires
            self.wf(),
            mat_scale_in_range(scalar as int, self@),
        ensures
            r.wf(),
            r@ == mat_scale_spec(scalar as int, self@),
    {
        let mut rows: Vec<Vec<i64>> = Vec::new();
        let mut i: usize = 0;
        while i < N
            invariant
                self.wf(),
                mat_scale_in_range(scalar as int, self@),
                i <= N,
                rows@.len() == i,
                forall|t: int| 0 <= t < i ==> (#[trigger] rows@[t])@.len() == N,
                forall|t: int, j: int|
                    0 <= t < i && 0 <= j < N ==> rows@[t]@[j] as int == scalar as int * self@[t][j],
            decreases N - i,
        {
            let mut row: Vec<i64> = Vec::new();
            let mut j: usize = 0;
            while j < N
                invariant
                    self.wf(),
                    mat_scale_in_range(scalar as int, self@),
                    i < N,
                    j <= N,
                    row@.len() == j,
                    forall|k: int| 0 <= k < j ==> row@[k] as int == scalar as int * self@[i as int][k],
                decreases N - j,
            {
                assert(in_i64(scalar as int * self@[i as int][j as int]));
                proof {
                    self.lemma_rows_view();
                }
                row.push(scalar * self.rows[i][j]);
                j = j + 1;
            }
            rows.push(row);
            i = i + 1;
        }
        let r = Matrix { rows };
        assert(r@ =~~= mat_scale_spec(scalar as int, self@));
        r
    }

    /// Adds another matrix entrywise, returning the new matrix.
    pub fn add(&self, other: &Self) -> (r: Self)
        requires
            self.wf(),
            other.wf(),
            mat_add_in_range(self@, other@),
        ensures
            r.wf(),
            r@ == mat_add_spec(self@, other@),
    {
        let mut rows: Vec<Vec<i64>> = Vec::new();
        let mut i: usize = 0;
        while i < N
            invariant
                self.wf(),
                other.wf(),
                mat_add_in_range(self@, other@),
                i <= N,
                rows@.len() == i,
                forall|t: int| 0 <= t < i ==> (#[trigger] rows@[t])@.len() == N,
                forall|t: int, j: int|
                    0 <= t < i && 0 <= j < N ==> rows@[t]@[j] as int == self@[t][j] + other@[t][j],
            decreases N - i,
        {
            let mut row: Vec<i64> = Vec::new();
            let mut j: usize = 0;
            while j < N
                invariant
                    self.wf(),
                    other.wf(),
                    mat_add_in_range(self@, other@),
                    i < N,
                    j <= N,
                    row@.len() == j,
                    forall|k: int|
                        0 <= k < j ==> row@[k] as int == self@[i as int][k] + other@[i as int][k],
                decreases N - j,
            {
                assert(in_i64(self@[i as int][j as int] + other@[i as int][j as int]));
                proof {
                    self.lemma_rows_view();
                    other.lemma_rows_view();
                }
                row.push(self.rows[i][j] + other.rows[i][j]);
                j = j + 1;
            }
            rows.push(row);
            i = i + 1;
        }
        let r = Matrix { rows };
        assert(r@ =~~= mat_add_spec(self@, other@));
        r
    }

    /// Subtracts another matrix entrywise, returning the new matrix.
    pub fn sub(&self, other: &Self) -> (r: Self)
        requires
            self.wf(),
            other.wf(),
            mat_sub_in_range(self@, other@),
        ensures
            r.wf(),
            r@ == mat_sub_spec(self@, other@),
    {
        let mut rows: Vec<Vec<i64>> = Vec::new();
        let mut i: usize = 0;
        while i < N
            invariant
                self.wf(),
                other.wf(),
                mat_sub_in_range(self@, other@),
                i <= N,
                rows@.len() == i,
                forall|t: int| 0 <= t < i ==> (#[trigger] rows@[t])@.len() == N,
                forall|t: int, j: int|
                    0 <= t < i && 0 <= j < N ==> rows@[t]@[j] as int == self@[t][j] - other@[t][j],
            decreases N - i,
        {
            let mut row: Vec<i64> = Vec::new();
            let mut j: usize = 0;
            while j < N
                invariant
                    self.wf(),
                    other.wf(),
                    mat_sub_in_range(self@, other@),
                    i < N,
                    j <= N,
                    row@.len() == j,
                    forall|k: int|
                        0 <= k < j ==> row@[k] as int == self@[i as int][k] - other@[i as int][k],
                decreases N - j,
            {
                assert(in_i64(self@[i as int][j as int] - other@[i as int][j as int]));
                proof {
                    self.lemma_rows_view();
                    other.lemma_rows_view();
                }
                row.push(self.rows[i][j] - other.rows[i][j]);
                j = j + 1;
            }
            rows.push(row);
            i = i + 1;
        }
        let r = Matrix { rows };
        assert(r@ =~~= mat_sub_spec(self@, other@));
        r
    }
}

impl<const N: usize> PartialEq for Matrix<N> {
    /// Two matrices are equal exactly when they hold the same entries.
    fn eq(&self, other: &Self) -> (r: bool) {
        if self.rows.len() != other.rows.len() {
            assert(self@.len() != other@.len());
            return false;
        }
        let mut i: usize = 0;
        while i < self.rows.len()
            invariant
                self.rows@.len() == other.rows@.len(),
                i <= self.rows@.len(),
                forall|t: int| 0 <= t < i ==> self@[t] == other@[t],
            decreases self.rows@.len() - i,
        {
            proof {
                self.lemma_rows_view();
                other.lemma_rows_view();
            }
            if self.rows[i].len() != other.rows[i].len() {
                assert(self@[i as int].len() != other@[i as int].len());
                return false;
            }
            let mut j: usize = 0;
            while j < self.rows[i].len()
                invariant
                    self.rows@.len() == other.rows@.len(),
                    i < self.rows@.len(),
                    self.rows@[i as int]@.len() == other.rows@[i as int]@.len(),
                    j <= self.rows@[i as int]@.len(),
                    forall|t: int| 0 <= t < i ==> self@[t] == other@[t],
                    forall|u: int| 0 <= u < j ==> self@[i as int][u] == other@[i as int][u],
                decreases self.rows@[i as int]@.len() - j,
            {
                proof {
                    self.lemma_rows_view();
                    other.lemma_rows_view();
                }
                if self.rows[i][j] != other.rows[i][j] {
                    assert(self@[i as int][j as int] != other@[i as int][j as int]);
                    return false;
                }
                j = j + 1;
            }
            proof {
                self.lemma_rows_view();
                other.lemma_rows_view();
            }
            assert(self@[i as int] =~= other@[i as int]);
            i = i + 1;
        }
        assert(self@ =~= other@);
        true
    }
}

impl<const N: usize> vstd::std_specs::cmp::PartialEqSpecImpl for Matrix<N> {
    open spec fn obeys_eq_spec() -> bool {
        true
    }

    open spec fn eq_spec(&self, other: &Self) -> bool {
        self@ == other@
    }
}

} // verus!
