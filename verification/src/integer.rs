//! Groups of integer scalars, and the bitwise reductions of a stream of
//! them.

use vstd::prelude::*;
use crate::element::{
    IntElement, and_op, or_op, xor_op, lemma_and_monoid, lemma_or_monoid, lemma_xor_monoid,
};
use crate::monoid::{flatten, reduce, zip_with, lemma_fold_lanes, lemma_reduce_is_fold};
use crate::vector::{Simd, lanes_of, reduce_groups};
use crate::SimdIterPadded;

verus! {

/// A group with integer lanes.
pub trait SimdInteger: Sized {
    type Scalar: IntElement;

    /// The scalars in the lanes, in order.
    spec fn lanes(&self) -> Seq<Self::Scalar>;

    /// The lane-wise AND of two groups.
    fn simd_and(self, other: Self) -> (r: Self)
        ensures
            r.lanes() == zip_with(self.lanes(), other.lanes(), and_op::<Self::Scalar>()),
    ;

    /// The lane-wise OR of two groups.
    fn simd_or(self, other: Self) -> (r: Self)
        ensures
            r.lanes() == zip_with(self.lanes(), other.lanes(), or_op::<Self::Scalar>()),
    ;

    /// The lane-wise XOR of two groups.
    fn simd_xor(self, other: Self) -> (r: Self)
        ensures
            r.lanes() == zip_with(self.lanes(), other.lanes(), xor_op::<Self::Scalar>()),
    ;

    /// The AND of the lanes.
    fn reduce_and(self) -> (r: Self::Scalar)
        ensures
            r == self.lanes().fold_left(
                <Self::Scalar as IntElement>::all_bits_spec(),
                and_op::<Self::Scalar>(),
            ),
    ;

    /// The OR of the lanes.
    fn reduce_or(self) -> (r: Self::Scalar)
        ensures
            r == self.lanes().fold_left(
                <Self::Scalar as IntElement>::no_bits_spec(),
                or_op::<Self::Scalar>(),
            ),
    ;

    /// The XOR of the lanes.
    fn reduce_xor(self) -> (r: Self::Scalar)
        ensures
            r == self.lanes().fold_left(
                <Self::Scalar as IntElement>::no_bits_spec(),
                xor_op::<Self::Scalar>(),
            ),
    ;
}

impl<T: IntElement, const N: usize> SimdInteger for Simd<T, N> {
    type Scalar = T;

    open spec fn lanes(&self) -> Seq<T> {
        self@
    }

    fn simd_and(self, other: Self) -> (r: Self) {
        Self::zip_lanes(
            self,
            other,
            T::lane_and,
            Ghost(and_op::<T>()),
        )
    }

    fn simd_or(self, other: Self) -> (r: Self) {
        Self::zip_lanes(
            self,
            other,
            T::lane_or,
            Ghost(or_op::<T>()),
        )
    }

    fn simd_xor(self, other: Self) -> (r: Self) {
        Self::zip_lanes(
            self,
            other,
            T::lane_xor,
            Ghost(xor_op::<T>()),
        )
    }

    fn reduce_and(self) -> (r: T) {
        Self::fold_across(
            self,
            T::all_bits(),
            T::lane_and,
            Ghost(and_op::<T>()),
        )
    }

    fn reduce_or(self) -> (r: T) {
        Self::fold_across(
            self,
            T::no_bits(),
            T::lane_or,
            Ghost(or_op::<T>()),
        )
    }

    fn reduce_xor(self) -> (r: T) {
        Self::fold_across(
            self,
            T::no_bits(),
            T::lane_xor,
            Ghost(xor_op::<T>()),
        )
    }
}

/// The reductions of a walk over groups with integer lanes.
pub trait SimdIntegerIterExt: Sized {
    type Scalar: IntElement;

    /// The groups that the walk has yet to yield.
    spec fn pending(&self) -> Seq<Seq<Self::Scalar>>;

    /// The walk is in a state that its constructors give.
    spec fn valid(&self) -> bool;

    /// The AND of every lane of every group; nothing where there is no group.
    fn scalar_reduce_and(self) -> (r: Option<Self::Scalar>)
        requires
            self.valid(),
        ensures
            r == reduce(flatten(self.pending()), and_op::<Self::Scalar>()),
    ;

    /// The OR of every lane of every group; nothing where there is no group.
    fn scalar_reduce_or(self) -> (r: Option<Self::Scalar>)
        requires
            self.valid(),
        ensures
            r == reduce(flatten(self.pending()), or_op::<Self::Scalar>()),
    ;

    /// The XOR of every lane of every group; nothing where there is no group.
    fn scalar_reduce_xor(self) -> (r: Option<Self::Scalar>)
        requires
            self.valid(),
        ensures
            r == reduce(flatten(self.pending()), xor_op::<Self::Scalar>()),
    ;
}

impl<'a, T: IntElement, const LANES: usize> SimdIntegerIterExt for SimdIterPadded<'a, T, LANES> {
    type Scalar = T;

    open spec fn pending(&self) -> Seq<Seq<T>> {
        self.groups()
    }

    open spec fn valid(&self) -> bool {
        self.wf()
    }

    fn scalar_reduce_and(self) -> (r: Option<T>) {
        proof {
            self.lemma_groups_uniform();
            lemma_and_monoid::<T>();
            if self.groups().len() > 0 {
                lemma_fold_lanes(self.groups(), LANES as nat, and_op::<T>(), T::all_bits_spec());
                assert(flatten(self.groups()).len() >= self.groups().last().len());
                lemma_reduce_is_fold(flatten(self.groups()), and_op::<T>(), T::all_bits_spec());
            }
        }
        match self.reduce(Simd::<T, LANES>::simd_and, Ghost(and_op::<T>())) {
            Some(group) => Some(group.reduce_and()),
            None => None,
        }
    }

    fn scalar_reduce_or(self) -> (r: Option<T>) {
        proof {
            self.lemma_groups_uniform();
            lemma_or_monoid::<T>();
            if self.groups().len() > 0 {
                lemma_fold_lanes(self.groups(), LANES as nat, or_op::<T>(), T::no_bits_spec());
                assert(flatten(self.groups()).len() >= self.groups().last().len());
                lemma_reduce_is_fold(flatten(self.groups()), or_op::<T>(), T::no_bits_spec());
            }
        }
        match self.reduce(Simd::<T, LANES>::simd_or, Ghost(or_op::<T>())) {
            Some(group) => Some(group.reduce_or()),
            None => None,
        }
    }

    fn scalar_reduce_xor(self) -> (r: Option<T>) {
        proof {
            self.lemma_groups_uniform();
            lemma_xor_monoid::<T>();
            if self.groups().len() > 0 {
                lemma_fold_lanes(self.groups(), LANES as nat, xor_op::<T>(), T::no_bits_spec());
                assert(flatten(self.groups()).len() >= self.groups().last().len());
                lemma_reduce_is_fold(flatten(self.groups()), xor_op::<T>(), T::no_bits_spec());
            }
        }
        match self.reduce(Simd::<T, LANES>::simd_xor, Ghost(xor_op::<T>())) {
            Some(group) => Some(group.reduce_xor()),
            None => None,
        }
    }
}

impl<'a, T: IntElement, const LANES: usize> SimdIntegerIterExt for &'a [Simd<T, LANES>] {
    type Scalar = T;

    open spec fn pending(&self) -> Seq<Seq<T>> {
        lanes_of(self@)
    }

    open spec fn valid(&self) -> bool {
        LANES > 0
    }

    fn scalar_reduce_and(self) -> (r: Option<T>) {
        proof {
            lemma_and_monoid::<T>();
            if self@.len() > 0 {
                let groups = lanes_of(self@);
                lemma_fold_lanes(groups, LANES as nat, and_op::<T>(), T::all_bits_spec());
                assert(flatten(groups).len() >= groups.last().len());
                lemma_reduce_is_fold(flatten(groups), and_op::<T>(), T::all_bits_spec());
            }
        }
        match reduce_groups(self, Simd::<T, LANES>::simd_and, Ghost(and_op::<T>())) {
            Some(group) => Some(group.reduce_and()),
            None => None,
        }
    }

    fn scalar_reduce_or(self) -> (r: Option<T>) {
        proof {
            lemma_or_monoid::<T>();
            if self@.len() > 0 {
                let groups = lanes_of(self@);
                lemma_fold_lanes(groups, LANES as nat, or_op::<T>(), T::no_bits_spec());
                assert(flatten(groups).len() >= groups.last().len());
                lemma_reduce_is_fold(flatten(groups), or_op::<T>(), T::no_bits_spec());
            }
        }
        match reduce_groups(self, Simd::<T, LANES>::simd_or, Ghost(or_op::<T>())) {
            Some(group) => Some(group.reduce_or()),
            None => None,
        }
    }

    fn scalar_reduce_xor(self) -> (r: Option<T>) {
        proof {
            lemma_xor_monoid::<T>();
            if self@.len() > 0 {
                let groups = lanes_of(self@);
                lemma_fold_lanes(groups, LANES as nat, xor_op::<T>(), T::no_bits_spec());
                assert(flatten(groups).len() >= groups.last().len());
                lemma_reduce_is_fold(flatten(groups), xor_op::<T>(), T::no_bits_spec());
            }
        }
        match reduce_groups(self, Simd::<T, LANES>::simd_xor, Ghost(xor_op::<T>())) {
            Some(group) => Some(group.reduce_xor()),
            None => None,
        }
    }
}

} // verus!
