//! Groups of numeric scalars, and the sum and product of a stream of them.

use vstd::prelude::*;
use crate::element::{NumElement, add_op, mul_op, lemma_add_monoid, lemma_mul_monoid};
use crate::monoid::{flatten, reduce, zip_with, lemma_fold_lanes, lemma_reduce_is_fold};
use crate::vector::{Simd, lanes_of, reduce_groups};
use crate::SimdIterPadded;

verus! {

/// A group with numeric lanes.
pub trait SimdNum: Sized {
    type Scalar: NumElement;

    /// The scalars in the lanes, in order.
    spec fn lanes(&self) -> Seq<Self::Scalar>;

    /// The lane-wise wrapping sum of two groups.
    fn simd_add(self, other: Self) -> (r: Self)
        ensures
            r.lanes() == zip_with(self.lanes(), other.lanes(), add_op::<Self::Scalar>()),
    ;

    /// The lane-wise wrapping product of two groups.
    fn simd_mul(self, other: Self) -> (r: Self)
        ensures
            r.lanes() == zip_with(self.lanes(), other.lanes(), mul_op::<Self::Scalar>()),
    ;

    /// The wrapping sum of the lanes.
    fn reduce_sum(self) -> (r: Self::Scalar)
        ensures
            r == self.lanes().fold_left(
                <Self::Scalar as NumElement>::zero_spec(),
                add_op::<Self::Scalar>(),
            ),
    ;

    /// The wrapping product of the lanes.
    fn reduce_product(self) -> (r: Self::Scalar)
        ensures
            r == self.lanes().fold_left(
                <Self::Scalar as NumElement>::one_spec(),
                mul_op::<Self::Scalar>(),
            ),
    ;
}

impl<T: NumElement, const N: usize> SimdNum for Simd<T, N> {
    type Scalar = T;

    open spec fn lanes(&self) -> Seq<T> {
        self@
    }

    fn simd_add(self, other: Self) -> (r: Self) {
        Self::zip_lanes(
            self,
            other,
            T::lane_add,
            Ghost(add_op::<T>()),
        )
    }

    fn simd_mul(self, other: Self) -> (r: Self) {
        Self::zip_lanes(
            self,
            other,
            T::lane_mul,
            Ghost(mul_op::<T>()),
        )
    }

    fn reduce_sum(self) -> (r: T) {
        Self::fold_across(
            self,
            T::zero(),
            T::lane_add,
            Ghost(add_op::<T>()),
        )
    }

    fn reduce_product(self) -> (r: T) {
        Self::fold_across(
            self,
            T::one(),
            T::lane_mul,
            Ghost(mul_op::<T>()),
        )
    }
}

/// The reductions of a walk over groups with numeric lanes.
pub trait SimdNumIterExt: Sized {
    type Scalar: NumElement;

    /// The groups that the walk has yet to yield.
    spec fn pending(&self) -> Seq<Seq<Self::Scalar>>;

    /// The walk is in a state that its constructors give.
    spec fn valid(&self) -> bool;

    /// The wrapping sum of every lane of every group; zero where there is no group.
    fn scalar_sum(self) -> (r: Self::Scalar)
        requires
            self.valid(),
        ensures
            r == flatten(self.pending()).fold_left(
                <Self::Scalar as NumElement>::zero_spec(),
                add_op::<Self::Scalar>(),
            ),
    ;

    /// The wrapping product of every lane of every group; one where there is no group.
    fn scalar_product(self) -> (r: Self::Scalar)
        requires
            self.valid(),
        ensures
            r == flatten(self.pending()).fold_left(
                <Self::Scalar as NumElement>::one_spec(),
                mul_op::<Self::Scalar>(),
            ),
    ;
}

impl<'a, T: NumElement, const LANES: usize> SimdNumIterExt for SimdIterPadded<'a, T, LANES> {
    type Scalar = T;

    open spec fn pending(&self) -> Seq<Seq<T>> {
        self.groups()
    }

    open spec fn valid(&self) -> bool {
        self.wf()
    }

    fn scalar_sum(self) -> (r: T) {
        proof {
            self.lemma_groups_uniform();
            lemma_add_monoid::<T>();
            if self.groups().len() > 0 {
                lemma_fold_lanes(self.groups(), LANES as nat, add_op::<T>(), T::zero_spec());
            }
        }
        match self.reduce(Simd::<T, LANES>::simd_add, Ghost(add_op::<T>())) {
            Some(group) => group.reduce_sum(),
            None => T::zero(),
        }
    }

    fn scalar_product(self) -> (r: T) {
        proof {
            self.lemma_groups_uniform();
            lemma_mul_monoid::<T>();
            if self.groups().len() > 0 {
                lemma_fold_lanes(self.groups(), LANES as nat, mul_op::<T>(), T::one_spec());
            }
        }
        match self.reduce(Simd::<T, LANES>::simd_mul, Ghost(mul_op::<T>())) {
            Some(group) => group.reduce_product(),
            None => T::one(),
        }
    }
}

impl<'a, T: NumElement, const LANES: usize> SimdNumIterExt for &'a [Simd<T, LANES>] {
    type Scalar = T;

    open spec fn pending(&self) -> Seq<Seq<T>> {
        lanes_of(self@)
    }

    open spec fn valid(&self) -> bool {
        LANES > 0
    }

    fn scalar_sum(self) -> (r: T) {
        proof {
            lemma_add_monoid::<T>();
            if self@.len() > 0 {
                lemma_fold_lanes(lanes_of(self@), LANES as nat, add_op::<T>(), T::zero_spec());
            }
        }
        match reduce_groups(self, Simd::<T, LANES>::simd_add, Ghost(add_op::<T>())) {
            Some(group) => group.reduce_sum(),
            None => T::zero(),
        }
    }

    fn scalar_product(self) -> (r: T) {
        proof {
            lemma_mul_monoid::<T>();
            if self@.len() > 0 {
                lemma_fold_lanes(lanes_of(self@), LANES as nat, mul_op::<T>(), T::one_spec());
            }
        }
        match reduce_groups(self, Simd::<T, LANES>::simd_mul, Ghost(mul_op::<T>())) {
            Some(group) => group.reduce_product(),
            None => T::one(),
        }
    }
}

} // verus!
