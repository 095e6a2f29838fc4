//! Groups of ordered scalars, and the minimum and maximum of a stream of
//! them.

use vstd::prelude::*;
use crate::element::{OrdElement, min_op, max_op, lemma_min_monoid, lemma_max_monoid};
use crate::min_max_identities::MinMaxIdentities;
use crate::monoid::{flatten, reduce, zip_with, lemma_fold_lanes, lemma_reduce_is_fold};
use crate::vector::{Simd, lanes_of, reduce_groups};
use crate::SimdIterPadded;

verus! {

/// A group with totally ordered lanes.
pub trait SimdOrdOrFloat: Sized {
    type Scalar: OrdElement;

    /// The scalars in the lanes, in order.
    spec fn lanes(&self) -> Seq<Self::Scalar>;

    /// The lane-wise minimum of two groups.
    fn simd_min(self, other: Self) -> (r: Self)
        ensures
            r.lanes() == zip_with(self.lanes(), other.lanes(), min_op::<Self::Scalar>()),
    ;

    /// The lane-wise maximum of two groups.
    fn simd_max(self, other: Self) -> (r: Self)
        ensures
            r.lanes() == zip_with(self.lanes(), other.lanes(), max_op::<Self::Scalar>()),
    ;

    /// The least of the lanes.
    fn reduce_min(self) -> (r: Self::Scalar)
        ensures
            r == self.lanes().fold_left(
                <Self::Scalar as MinMaxIdentities>::min_identity_spec(),
                min_op::<Self::Scalar>(),
            ),
    ;

    /// The greatest of the lanes.
    fn reduce_max(self) -> (r: Self::Scalar)
        ensures
            r == self.lanes().fold_left(
                <Self::Scalar as MinMaxIdentities>::max_identity_spec(),
                max_op::<Self::Scalar>(),
            ),
    ;
}

impl<T: OrdElement, const N: usize> SimdOrdOrFloat for Simd<T, N> {
    type Scalar = T;

    open spec fn lanes(&self) -> Seq<T> {
        self@
    }

    fn simd_min(self, other: Self) -> (r: Self) {
        Self::zip_lanes(
            self,
            other,
            T::lane_min,
            Ghost(min_op::<T>()),
        )
    }

    fn simd_max(self, other: Self) -> (r: Self) {
        Self::zip_lanes(
            self,
            other,
            T::lane_max,
            Ghost(max_op::<T>()),
        )
    }

    fn reduce_min(self) -> (r: T) {
        Self::fold_across(
            self,
            T::min_identity(),
            T::lane_min,
            Ghost(min_op::<T>()),
        )
    }

    fn reduce_max(self) -> (r: T) {
        Self::fold_across(
            self,
            T::max_identity(),
            T::lane_max,
            Ghost(max_op::<T>()),
        )
    }
}

/// The reductions of a walk over groups with ordered lanes.
pub trait SimdOrdIterExt: Sized {
    type Scalar: OrdElement;

    /// The groups that the walk has yet to yield.
    spec fn pending(&self) -> Seq<Seq<Self::Scalar>>;

    /// The walk is in a state that its constructors give.
    spec fn valid(&self) -> bool;

    /// The least lane of all groups; nothing where there is no group.
    fn scalar_min(self) -> (r: Option<Self::Scalar>)
        requires
            self.valid(),
        ensures
            r == reduce(flatten(self.pending()), min_op::<Self::Scalar>()),
    ;

    /// The greatest lane of all groups; nothing where there is no group.
    fn scalar_max(self) -> (r: Option<Self::Scalar>)
        requires
            self.valid(),
        ensures
            r == reduce(flatten(self.pending()), max_op::<Self::Scalar>()),
    ;
}

impl<'a, T: OrdElement, const LANES: usize> SimdOrdIterExt for SimdIterPadded<'a, T, LANES> {
    type Scalar = T;

    open spec fn pending(&self) -> Seq<Seq<T>> {
        self.groups()
    }

    open spec fn valid(&self) -> bool {
        self.wf()
    }

    fn scalar_min(self) -> (r: Option<T>) {
        proof {
            self.lemma_groups_uniform();
            lemma_min_monoid::<T>();
            if self.groups().len() > 0 {
                lemma_fold_lanes(self.groups(), LANES as nat, min_op::<T>(), T::min_identity_spec());
                assert(flatten(self.groups()).len() >= self.groups().last().len());
                lemma_reduce_is_fold(flatten(self.groups()), min_op::<T>(), T::min_identity_spec());
            }
        }
        match self.reduce(Simd::<T, LANES>::simd_min, Ghost(min_op::<T>())) {
            Some(group) => Some(group.reduce_min()),
            None => None,
        }
    }

    fn scalar_max(self) -> (r: Option<T>) {
        proof {
            self.lemma_groups_uniform();
            lemma_max_monoid::<T>();
            if self.groups().len() > 0 {
                lemma_fold_lanes(self.groups(), LANES as nat, max_op::<T>(), T::max_identity_spec());
                assert(flatten(self.groups()).len() >= self.groups().last().len());
                lemma_reduce_is_fold(flatten(self.groups()), max_op::<T>(), T::max_identity_spec());
            }
        }
        match self.reduce(Simd::<T, LANES>::simd_max, Ghost(max_op::<T>())) {
            Some(group) => Some(group.reduce_max()),
            None => None,
        }
    }
}

impl<'a, T: OrdElement, const LANES: usize> SimdOrdIterExt for &'a [Simd<T, LANES>] {
    type Scalar = T;

    open spec fn pending(&self) -> Seq<Seq<T>> {
        lanes_of(self@)
    }

    open spec fn valid(&self) -> bool {
        LANES > 0
    }

    fn scalar_min(self) -> (r: Option<T>) {
        proof {
            lemma_min_monoid::<T>();
            if self@.len() > 0 {
                let groups = lanes_of(self@);
                lemma_fold_lanes(groups, LANES as nat, min_op::<T>(), T::min_identity_spec());
                assert(flatten(groups).len() >= groups.last().len());
                lemma_reduce_is_fold(flatten(groups), min_op::<T>(), T::min_identity_spec());
            }
        }
        match reduce_groups(self, Simd::<T, LANES>::simd_min, Ghost(min_op::<T>())) {
            Some(group) => Some(group.reduce_min()),
            None => None,
        }
    }

    fn scalar_max(self) -> (r: Option<T>) {
        proof {
            lemma_max_monoid::<T>();
            if self@.len() > 0 {
                let groups = lanes_of(self@);
                lemma_fold_lanes(groups, LANES as nat, max_op::<T>(), T::max_identity_spec());
                assert(flatten(groups).len() >= groups.last().len());
                lemma_reduce_is_fold(flatten(groups), max_op::<T>(), T::max_identity_spec());
            }
        }
        match reduce_groups(self, Simd::<T, LANES>::simd_max, Ghost(max_op::<T>())) {
            Some(group) => Some(group.reduce_max()),
            None => None,
        }
    }
}

} // verus!
