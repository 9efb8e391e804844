//! The mathematical model: vectors are sequences of integers, matrices are
//! sequences of rows, and every executable operation is specified against the
//! functions here. The proof functions at the end state the algebraic laws
//! that the operations obey.

use vstd::prelude::*;

verus! {

/// Whether `x` fits in a 64-bit signed machine integer.
pub open spec fn in_i64(x: int) -> bool {
    i64::MIN as int <= x <= i64::MAX as int
}

/// The sum of the first `k` pairwise products of `a` and `b`.
pub open spec fn dot_prefix(a: Seq<int>, b: Seq<int>, k: int) -> int
    decreases k,
{
    if k <= 0 {
        0
    } else {
        dot_prefix(a, b, k - 1) + a[k - 1] * b[k - 1]
    }
}

/// The dot product of `a` and `b`.
pub open spec fn dot_spec(a: Seq<int>, b: Seq<int>) -> int {
    dot_prefix(a, b, a.len() as int)
}

/// Every pairwise product and every partial sum of the dot product of `a`
/// and `b` fits in a machine integer.
pub open spec fn dot_in_range(a: Seq<int>, b: Seq<int>) -> bool {
    &&& forall|k: int| 0 <= k < a.len() ==> in_i64((#[trigger] a[k]) * b[k])
    &&& forall|k: int| 0 <= k <= a.len() ==> in_i64(#[trigger] dot_prefix(a, b, k))
}

/// Every product of `s` with a coordinate of `v` fits in a machine integer.
pub open spec fn scale_in_range(s: int, v: Seq<int>) -> bool {
    forall|k: int| 0 <= k < v.len() ==> in_i64(s * #[trigger] v[k])
}

/// Every pairwise sum of coordinates of `a` and `b` fits in a machine integer.
pub open spec fn add_in_range(a: Seq<int>, b: Seq<int>) -> bool {
    forall|k: int| 0 <= k < a.len() ==> in_i64((#[trigger] a[k]) + b[k])
}

/// Every pairwise difference of coordinates of `a` and `b` fits in a machine
/// integer.
pub open spec fn sub_in_range(a: Seq<int>, b: Seq<int>) -> bool {
    forall|k: int| 0 <= k < a.len() ==> in_i64((#[trigger] a[k]) - b[k])
}

/// Every product and every difference of the 3D cross product of `a` and `b`
/// fits in a machine integer.
pub open spec fn cross_in_range(a: Seq<int>, b: Seq<int>) -> bool {
    &&& in_i64(a[1] * b[2]) && in_i64(a[2] * b[1]) && in_i64(a[1] * b[2] - a[2] * b[1])
    &&& in_i64(a[2] * b[0]) && in_i64(a[0] * b[2]) && in_i64(a[2] * b[0] - a[0] * b[2])
    &&& in_i64(a[0] * b[1]) && in_i64(a[1] * b[0]) && in_i64(a[0] * b[1] - a[1] * b[0])
}

/// The standard basis vector of dimension `n` with a one at index `i`.
pub open spec fn unit(n: nat, i: int) -> Seq<int> {
    Seq::new(n, |j: int| if j == i { 1int } else { 0int })
}

/// The identity matrix of dimension `n`: ones on the diagonal, zeros elsewhere.
pub open spec fn identity_spec(n: nat) -> Seq<Seq<int>> {
    Seq::new(n, |i: int| unit(n, i))
}

/// Column `j` of the matrix `m`.
pub open spec fn column(m: Seq<Seq<int>>, j: int) -> Seq<int> {
    Seq::new(m.len(), |i: int| m[i][j])
}

/// The transpose of `m`: its sequence of columns.
pub open spec fn transpose_spec(m: Seq<Seq<int>>) -> Seq<Seq<int>> {
    Seq::new(m.len(), |j: int| column(m, j))
}

/// Whether `m` is a square matrix of dimension `n`.
pub open spec fn square(m: Seq<Seq<int>>, n: nat) -> bool {
    &&& m.len() == n
    &&& forall|i: int| 0 <= i < n ==> (#[trigger] m[i]).len() == n
}

/// The matrix-vector product: entry `i` is the dot product of row `i` with `v`.
pub open spec fn mat_vec_spec(m: Seq<Seq<int>>, v: Seq<int>) -> Seq<int> {
    Seq::new(m.len(), |i: int| dot_spec(m[i], v))
}

/// The matrix-matrix product: entry `(i, j)` is the dot product of row `i`
/// of `a` with column `j` of `b`.
pub open spec fn mat_mul_spec(a: Seq<Seq<int>>, b: Seq<Seq<int>>) -> Seq<Seq<int>> {
    Seq::new(a.len(), |i: int| Seq::new(a.len(), |j: int| dot_spec(a[i], column(b, j))))
}

/// Every row of `m` dots against `v` within machine-integer range.
pub open spec fn mat_vec_in_range(m: Seq<Seq<int>>, v: Seq<int>) -> bool {
    forall|i: int| 0 <= i < m.len() ==> dot_in_range(#[trigger] m[i], v)
}

/// Every row of `a` dots against every column of `b` within machine-integer
/// range.
pub open spec fn mat_mul_in_range(a: Seq<Seq<int>>, b: Seq<Seq<int>>) -> bool {
    forall|i: int, j: int|
        0 <= i < a.len() && 0 <= j < a.len() ==> dot_in_range(#[trigger] a[i], #[trigger] column(b, j))
}

/// Every product of `s` with an entry of `m` fits in a machine integer.
pub open spec fn mat_scale_in_range(s: int, m: Seq<Seq<int>>) -> bool {
    forall|i: int| 0 <= i < m.len() ==> scale_in_range(s, #[trigger] m[i])
}

/// Every pairwise sum of entries of `a` and `b` fits in a machine integer.
pub open spec fn mat_add_in_range(a: Seq<Seq<int>>, b: Seq<Seq<int>>) -> bool {
    forall|i: int| 0 <= i < a.len() ==> add_in_range(#[trigger] a[i], b[i])
}

/// Every pairwise difference of entries of `a` and `b` fits in a machine
/// integer.
pub open spec fn mat_sub_in_range(a: Seq<Seq<int>>, b: Seq<Seq<int>>) -> bool {
    forall|i: int| 0 <= i < a.len() ==> sub_in_range(#[trigger] a[i], b[i])
}

/// `m` scaled entrywise by `s`.
pub open spec fn mat_scale_spec(s: int, m: Seq<Seq<int>>) -> Seq<Seq<int>> {
    Seq::new(m.len(), |i: int| scale_spec(s, m[i]))
}

/// The entrywise sum of `a` and `b`.
pub open spec fn mat_add_spec(a: Seq<Seq<int>>, b: Seq<Seq<int>>) -> Seq<Seq<int>> {
    Seq::new(a.len(), |i: int| add_spec(a[i], b[i]))
}

/// The entrywise difference of `a` and `b`.
pub open spec fn mat_sub_spec(a: Seq<Seq<int>>, b: Seq<Seq<int>>) -> Seq<Seq<int>> {
    Seq::new(a.len(), |i: int| sub_spec(a[i], b[i]))
}

/// `v` scaled elementwise by `s`.
pub open spec fn scale_spec(s: int, v: Seq<int>) -> Seq<int> {
    Seq::new(v.len(), |i: int| s * v[i])
}

/// The elementwise sum of `a` and `b`.
pub open spec fn add_spec(a: Seq<int>, b: Seq<int>) -> Seq<int> {
    Seq::new(a.len(), |i: int| a[i] + b[i])
}

/// The elementwise difference of `a` and `b`.
pub open spec fn sub_spec(a: Seq<int>, b: Seq<int>) -> Seq<int> {
    Seq::new(a.len(), |i: int| a[i] - b[i])
}

/// The 3D cross product of `a` and `b` by the determinant expansion.
pub open spec fn cross_spec(a: Seq<int>, b: Seq<int>) -> Seq<int> {
    seq![
        a[1] * b[2] - a[2] * b[1],
        a[2] * b[0] - a[0] * b[2],
        a[0] * b[1] - a[1] * b[0],
    ]
}

/// Whether `x` passes an optional lower bound `lo` and an optional upper
/// bound `hi`.
pub open spec fn bound_ok(x: int, lo: Option<i64>, hi: Option<i64>) -> bool {
    &&& match lo {
        Some(l) => l as int <= x,
        None => true,
    }
    &&& match hi {
        Some(h) => x <= h as int,
        None => true,
    }
}

/// Whether every coordinate of `v` passes its per-coordinate optional bounds.
pub open spec fn within_bounds(v: Seq<int>, lower: Seq<Option<i64>>, upper: Seq<Option<i64>>) -> bool {
    forall|i: int| 0 <= i < v.len() ==> #[trigger] bound_ok(v[i], lower[i], upper[i])
}

/// A partial dot product against a standard basis vector picks out at most
/// one coordinate: the first `k` terms sum to `v[i]` once the prefix has
/// passed index `i`, and to zero before that.
proof fn lemma_dot_prefix_unit(n: nat, i: int, v: Seq<int>, k: int)
    requires
        v.len() == n,
        0 <= i < n,
        0 <= k <= n,
    ensures
        dot_prefix(unit(n, i), v, k) == if i < k {
            v[i]
        } else {
            0int
        },
    decreases k,
{
    if k > 0 {
        lemma_dot_prefix_unit(n, i, v, k - 1);
        assert(unit(n, i)[k - 1] == if k - 1 == i {
            1int
        } else {
            0int
        });
    }
}

/// Dotting a vector with the `i`-th standard basis vector of its dimension
/// yields its `i`-th coordinate.
pub proof fn lemma_unit_dot(v: Seq<int>, i: int)
    requires
        0 <= i < v.len(),
    ensures
        dot_spec(unit(v.len(), i), v) == v[i],
{
    lemma_dot_prefix_unit(v.len(), i, v, v.len() as int);
}

/// Multiplying any vector by the identity matrix of its dimension returns
/// the vector unchanged.
pub proof fn lemma_identity_mult(v: Seq<int>)
    ensures
        mat_vec_spec(identity_spec(v.len()), v) == v,
{
    let n = v.len();
    assert forall|i: int| 0 <= i < n implies mat_vec_spec(identity_spec(n), v)[i] == v[i] by {
        lemma_unit_dot(v, i);
    }
    assert(mat_vec_spec(identity_spec(n), v) =~= v);
}

/// The standard basis is orthonormal: the dot product of two basis vectors
/// is one when they coincide and zero otherwise.
pub proof fn lemma_basis_orthonormal(n: nat, i: int, j: int)
    requires
        0 <= i < n,
        0 <= j < n,
    ensures
        dot_spec(unit(n, i), unit(n, j)) == if i == j {
            1int
        } else {
            0int
        },
{
    lemma_unit_dot(unit(n, j), i);
}

/// Decomposing a square matrix into its columns and recomposing those
/// columns into a matrix reproduces the original matrix exactly.
pub proof fn lemma_decompose_recompose(m: Seq<Seq<int>>, n: nat)
    requires
        square(m, n),
    ensures
        transpose_spec(transpose_spec(m)) == m,
{
    let t = transpose_spec(m);
    assert forall|i: int| 0 <= i < n implies transpose_spec(t)[i] =~= m[i] by {
        assert forall|j: int| 0 <= j < n implies column(t, i)[j] == m[i][j] by {
            assert(t[j] == column(m, j));
        }
    }
    assert(transpose_spec(transpose_spec(m)) =~= m);
}

/// The cross product is anti-commutative: crossing in the opposite order
/// yields the same vector scaled by minus one.
pub proof fn lemma_cross_anticommutative(a: Seq<int>, b: Seq<int>)
    requires
        a.len() == 3,
        b.len() == 3,
    ensures
        cross_spec(a, b) == scale_spec(-1, cross_spec(b, a)),
{
    assert(cross_spec(a, b) =~= scale_spec(-1, cross_spec(b, a)));
}

/// The first `k` terms of a dot product are the same in either argument order.
proof fn lemma_dot_prefix_commutative(a: Seq<int>, b: Seq<int>, k: int)
    ensures
        dot_prefix(a, b, k) == dot_prefix(b, a, k),
    decreases k,
{
    if k > 0 {
        lemma_dot_prefix_commutative(a, b, k - 1);
    }
}

/// The dot product is commutative.
pub proof fn lemma_dot_commutative(a: Seq<int>, b: Seq<int>)
    requires
        a.len() == b.len(),
    ensures
        dot_spec(a, b) == dot_spec(b, a),
{
    lemma_dot_prefix_commutative(a, b, a.len() as int);
}

} // verus!
