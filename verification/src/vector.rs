//! Vectors of a fixed, type-level dimension.

use vstd::prelude::*;

use crate::algebra::{
    add_in_range, add_spec, bound_ok, column, cross_in_range, cross_spec, dot_in_range, dot_prefix,
    dot_spec, identity_spec, in_i64, mat_vec_in_range, mat_vec_spec, scale_in_range, scale_spec,
    sub_in_range, sub_spec, unit, within_bounds,
};
use crate::matrix::Matrix;
use crate::rng;

verus! {

/// A vector of `N` integer coordinates. The dimension is part of the type,
/// so vectors of different dimensions can never be mixed, and operations
/// that only make sense in one dimension (the cross product) exist only at
/// that dimension.
///
/// Vectors have value semantics: every operation returns a new vector and
/// leaves its operands untouched.
#[derive(Clone, Debug)]
pub struct Vector<const N: usize> {
    values: Vec<i64>,
}

impl<const N: usize> View for Vector<N> {
    type V = Seq<int>;

    closed spec fn view(&self) -> Seq<int> {
        self.values@.map(|_i: int, v: i64| v as int)
    }
}

impl<const N: usize> Vector<N> {
    /// A vector is well-formed when it holds exactly `N` coordinates. Every
    /// constructor establishes this and every operation preserves it.
    pub open spec fn wf(&self) -> bool {
        self@.len() == N
    }

    /// Constructs a zero vector.
    pub fn zero() -> (r: Self)
        ensures
            r.wf(),
            forall|i: int| 0 <= i < N ==> r@[i] == 0,
    {
        let mut values: Vec<i64> = Vec::new();
        let mut i: usize = 0;
        while i < N
            invariant
                i <= N,
                values@.len() == i,
                forall|k: int| 0 <= k < i ==> values@[k] == 0i64,
            decreases N - i,
        {
            values.push(0);
            i = i + 1;
        }
        Vector { values }
    }

    /// Constructs a vector of the provided values.
    pub fn new(values: Vec<i64>) -> (r: Self)
        requires
            values@.len() == N,
        ensures
            r.wf(),
            forall|i: int| 0 <= i < N ==> #[trigger] r@[i] == values@[i] as int,
    {
        Vector { values }
    }

    /// Reads the coordinate at the given index.
    pub fn get(&self, idx: usize) -> (r: i64)
        requires
            self.wf(),
            idx < N,
        ensures
            r as int == self@[idx as int],
    {
        self.values[idx]
    }

    /// Replaces the coordinate at the given index.
    pub fn set(&mut self, idx: usize, value: i64)
        requires
            old(self).wf(),
            idx < N,
        ensures
            final(self).wf(),
            final(self)@ == old(self)@.update(idx as int, value as int),
    {
        self.values[idx] = value;
        assert(self@ =~= old(self)@.update(idx as int, value as int));
    }

    /// Constructs the standard orthonormal basis of dimension `N`: the
    /// `i`-th vector has a one at index `i` and zeros elsewhere. They are
    /// the columns of the identity matrix.
    pub fn basis() -> (r: Vec<Vector<N>>)
        ensures
            r@.len() == N,
            forall|i: int| 0 <= i < N ==> (#[trigger] r@[i]).wf() && r@[i]@ == unit(N as nat, i),
    {
        let identity = Matrix::<N>::identity();
        let cols = identity.decompose();
        proof {
            assert forall|t: int| 0 <= t < N implies cols@[t]@ =~= unit(N as nat, t) by {
                assert(cols@[t]@ == column(identity_spec(N as nat), t));
                assert forall|j: int|
                    0 <= j < N implies #[trigger] column(identity_spec(N as nat), t)[j] == unit(
                    N as nat,
                    t,
                )[j] by {
                    assert(identity_spec(N as nat)[j] == unit(N as nat, j));
                }
            }
        }
        cols
    }

    /// Left-multiplies the provided matrix by this vector: coordinate `i` of
    /// the result is the dot product of row `i` of the matrix with this
    /// vector.
    pub fn mult(&self, matrix: &Matrix<N>) -> (r: Self)
        requires
            self.wf(),
            matrix.wf(),
            mat_vec_in_range(matrix@, self@),
        ensures
            r.wf(),
            r@ == mat_vec_spec(matrix@, self@),
    {
        matrix.mult(self)
    }

    /// Scales the vector by the provided scalar, returning the new vector.
    pub fn scale(&self, scalar: i64) -> (r: Self)
        requires
            self.wf(),
            scale_in_range(scalar as int, self@),
        ensures
            r.wf(),
            r@ == scale_spec(scalar as int, self@),
    {
        let mut values: Vec<i64> = Vec::new();
        let mut i: usize = 0;
        while i < N
            invariant
                self.wf(),
                scale_in_range(scalar as int, self@),
                i <= N,
                values@.len() == i,
                forall|k: int| 0 <= k < i ==> values@[k] as int == scalar as int * self@[k],
            decreases N - i,
        {
            assert(in_i64(scalar as int * self@[i as int]));
            values.push(scalar * self.values[i]);
            i = i + 1;
        }
        let r = Vector { values };
        assert(r@ =~= scale_spec(scalar as int, self@));
        r
    }

    /// Dots this vector with another vector.
    pub fn dot(&self, other: &Self) -> (r: i64)
        requires
            self.wf(),
            other.wf(),
            dot_in_range(self@, other@),
        ensures
            r as int == dot_spec(self@, other@),
    {
        let mut acc: i64 = 0;
        let mut i: usize = 0;
        while i < N
            invariant
                self.wf(),
                other.wf(),
                dot_in_range(self@, other@),
                i <= N,
                acc as int == dot_prefix(self@, other@, i as int),
            decreases N - i,
        {
            assert(dot_prefix(self@, other@, i as int + 1) == acc as int + self@[i as int]
                * other@[i as int]);
            assert(in_i64(self@[i as int] * other@[i as int]));
            assert(in_i64(dot_prefix(self@, other@, i as int + 1)));
            acc = acc + self.values[i] * other.values[i];
            i = i + 1;
        }
        acc
    }

    /// Adds another vector elementwise, returning the new vector.
    pub fn add(&self, other: &Self) -> (r: Self)
        requires
            self.wf(),
            other.wf(),
            add_in_range(self@, other@),
        ensures
            r.wf(),
            r@ == add_spec(self@, other@),
    {
        let mut values: Vec<i64> = Vec::new();
        let mut i: usize = 0;
        while i < N
            invariant
                self.wf(),
                other.wf(),
                add_in_range(self@, other@),
                i <= N,
                values@.len() == i,
                forall|k: int| 0 <= k < i ==> values@[k] as int == self@[k] + other@[k],
            decreases N - i,
        {
            assert(in_i64(self@[i as int] + other@[i as int]));
            values.push(self.values[i] + other.values[i]);
            i = i + 1;
        }
        let r = Vector { values };
        assert(r@ =~= add_spec(self@, other@));
        r
    }

    /// Subtracts another vector elementwise, returning the new vector.
    pub fn sub(&self, other: &Self) -> (r: Self)
        requires
            self.wf(),
            other.wf(),
            sub_in_range(self@, other@),
        ensures
            r.wf(),
            r@ == sub_spec(self@, other@),
    {
        let mut values: Vec<i64> = Vec::new();
        let mut i: usize = 0;
        while i < N
            invariant
                self.wf(),
                other.wf(),
                sub_in_range(self@, other@),
                i <= N,
                values@.len() == i,
                forall|k: int| 0 <= k < i ==> values@[k] as int == self@[k] - other@[k],
            decreases N - i,
        {
            assert(in_i64(self@[i as int] - other@[i as int]));
            values.push(self.values[i] - other.values[i]);
            i = i + 1;
        }
        let r = Vector { values };
        assert(r@ =~= sub_spec(self@, other@));
        r
    }

    /// Determines whether this vector lies within the elementwise
    /// constraints: a coordinate fails when a lower bound is present and the
    /// coordinate falls below it, or an upper bound is present and the
    /// coordinate exceeds it. Bounds are optional per coordinate and
    /// independent of each other.
    pub fn check(&self, lower: &Vec<Option<i64>>, upper: &Vec<Option<i64>>) -> (r: bool)
        requires
            self.wf(),
            lower@.len() == N,
            upper@.len() == N,
        ensures
            r == within_bounds(self@, lower@, upper@),
    {
        let mut i: usize = 0;
        while i < N
            invariant
                self.wf(),
                lower@.len() == N,
                upper@.len() == N,
                i <= N,
                forall|k: int| 0 <= k < i ==> #[trigger] bound_ok(self@[k], lower@[k], upper@[k]),
            decreases N - i,
        {
            match lower[i] {
                Some(l) => {
                    if self.values[i] < l {
                        assert(!bound_ok(self@[i as int], lower@[i as int], upper@[i as int]));
                        return false;
                    }
                },
                None => {},
            }
            match upper[i] {
                Some(u) => {
                    if self.values[i] > u {
                        assert(!bound_ok(self@[i as int], lower@[i as int], upper@[i as int]));
                        return false;
                    }
                },
                None => {},
            }
            assert(bound_ok(self@[i as int], lower@[i as int], upper@[i as int]));
            i = i + 1;
        }
        true
    }

    /// Given two parent vectors, generates a "child" vector for genetic
    /// optimization: each coordinate is drawn from either parent with equal
    /// probability, then perturbed by the caller-supplied noise at that
    /// coordinate (for instance, a sample of a zero-mean Gaussian).
    pub fn child(mother: &Self, father: &Self, noise: &Self) -> (r: Self)
        requires
            mother.wf(),
            father.wf(),
            noise.wf(),
            add_in_range(mother@, noise@),
            add_in_range(father@, noise@),
        ensures
            r.wf(),
            forall|i: int|
                0 <= i < N ==> #[trigger] r@[i] == mother@[i] + noise@[i] || r@[i] == father@[i]
                    + noise@[i],
    {
        let mut values: Vec<i64> = Vec::new();
        let mut i: usize = 0;
        while i < N
            invariant
                mother.wf(),
                father.wf(),
                noise.wf(),
                add_in_range(mother@, noise@),
                add_in_range(father@, noise@),
                i <= N,
                values@.len() == i,
                forall|k: int|
                    0 <= k < i ==> #[trigger] values@[k] as int == mother@[k] + noise@[k]
                        || values@[k] as int == father@[k] + noise@[k],
            decreases N - i,
        {
            // Select the gene for the child
            let gene: i64 = if rng::rand_below(2) == 0 {
                mother.values[i]
            } else {
                father.values[i]
            };
            // Mutate this gene
            assert(in_i64(mother@[i as int] + noise@[i as int]));
            assert(in_i64(father@[i as int] + noise@[i as int]));
            values.push(gene + noise.values[i]);
            i = i + 1;
        }
        let r = Vector { values };
        r
    }

    /// Given two discrete parent vectors, generates a "child" vector for
    /// discrete genetic optimization: each coordinate is drawn from either
    /// parent with equal probability, then, with probability `1/N`, replaced
    /// by a uniformly chosen value from the permitted candidate set.
    pub fn child_discrete(mother: &Self, father: &Self, permitted: &Vec<i64>) -> (r: Self)
        requires
            mother.wf(),
            father.wf(),
            permitted@.len() > 0,
        ensures
            r.wf(),
            forall|i: int|
                0 <= i < N ==> #[trigger] r@[i] == mother@[i] || r@[i] == father@[i] || exists|t: int|
                    0 <= t < permitted@.len() && permitted@[t] as int == r@[i],
    {
        let mut values: Vec<i64> = Vec::new();
        let mut i: usize = 0;
        while i < N
            invariant
                mother.wf(),
                father.wf(),
                permitted@.len() > 0,
                i <= N,
                values@.len() == i,
                forall|k: int|
                    0 <= k < i ==> #[trigger] values@[k] as int == mother@[k] || values@[k] as int
                        == father@[k] || exists|t: int|
                        0 <= t < permitted@.len() && permitted@[t] as int == values@[k] as int,
            decreases N - i,
        {
            // Select the gene for the child
            let mut gene: i64 = if rng::rand_below(2) == 0 {
                mother.values[i]
            } else {
                father.values[i]
            };
            // With probability 1/N, replace it by a permitted candidate
            if rng::rand_below(N) == 0 {
                gene = rng::rand_choice(permitted);
            }
            values.push(gene);
            i = i + 1;
        }
        let r = Vector { values };
        r
    }
}

impl Vector<3> {
    /// Crosses this vector with another vector by the determinant expansion.
    pub fn cross(&self, other: &Self) -> (r: Self)
        requires
            self.wf(),
            other.wf(),
            cross_in_range(self@, other@),
        ensures
            r.wf(),
            r@ == cross_spec(self@, other@),
    {
        let x = self.values[1] * other.values[2] - self.values[2] * other.values[1];
        let y = self.values[2] * other.values[0] - self.values[0] * other.values[2];
        let z = self.values[0] * other.values[1] - self.values[1] * other.values[0];
        let mut values: Vec<i64> = Vec::new();
        values.push(x);
        values.push(y);
        values.push(z);
        let r = Vector { values };
        assert(r@ =~= cross_spec(self@, other@));
        r
    }
}

impl<const N: usize> PartialEq for Vector<N> {
    /// Two vectors are equal exactly when they hold the same coordinates.
    fn eq(&self, other: &Self) -> (r: bool) {
        if self.values.len() != other.values.len() {
            assert(self@.len() != other@.len());
            return false;
        }
        let mut i: usize = 0;
        while i < self.values.len()
            invariant
                self.values@.len() == other.values@.len(),
                i <= self.values@.len(),
                forall|k: int| 0 <= k < i ==> self@[k] == other@[k],
            decreases self.values@.len() - i,
        {
            if self.values[i] != other.values[i] {
                assert(self@[i as int] != other@[i as int]);
                return false;
            }
            i = i + 1;
        }
        assert(self@ =~= other@);
        true
    }
}

impl<const N: usize> vstd::std_specs::cmp::PartialEqSpecImpl for Vector<N> {
    open spec fn obeys_eq_spec() -> bool {
        true
    }

    open spec fn eq_spec(&self, other: &Self) -> bool {
        self@ == other@
    }
}

} // verus!
