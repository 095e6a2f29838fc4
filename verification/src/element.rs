//! What a scalar has to offer to sit in a lane: one trait per capability.
//!
//! Each trait names its operations as spec functions, gives the executable
//! operation that computes them, and carries the algebraic laws that make a
//! lane-parallel reduction agree with the sequential one.

use vstd::prelude::*;
use crate::min_max_identities::MinMaxIdentities;
use crate::monoid::commutative_monoid;

verus! {

/// A scalar with wrapping addition and multiplication.
pub trait NumElement: Copy + Sized {
    spec fn zero_spec() -> Self;

    spec fn one_spec() -> Self;

    /// The sum of two scalars, wrapping around at the type's bounds.
    spec fn add_spec(self, rhs: Self) -> Self;

    /// The product of two scalars, wrapping around at the type's bounds.
    spec fn mul_spec(self, rhs: Self) -> Self;

    fn zero() -> (r: Self)
        ensures
            r == Self::zero_spec(),
    ;

    fn one() -> (r: Self)
        ensures
            r == Self::one_spec(),
    ;

    fn lane_add(self, rhs: Self) -> (r: Self)
        ensures
            r == self.add_spec(rhs),
    ;

    fn lane_mul(self, rhs: Self) -> (r: Self)
        ensures
            r == self.mul_spec(rhs),
    ;

    /// Addition is associative and commutative, and zero is neutral.
    proof fn add_laws(a: Self, b: Self, c: Self)
        ensures
            a.add_spec(b).add_spec(c) == a.add_spec(b.add_spec(c)),
            a.add_spec(b) == b.add_spec(a),
            Self::zero_spec().add_spec(a) == a,
    ;

    /// Multiplication is associative and commutative, and one is neutral.
    proof fn mul_laws(a: Self, b: Self, c: Self)
        ensures
            a.mul_spec(b).mul_spec(c) == a.mul_spec(b.mul_spec(c)),
            a.mul_spec(b) == b.mul_spec(a),
            Self::one_spec().mul_spec(a) == a,
    ;
}

/// A totally ordered scalar.
pub trait OrdElement: Copy + Sized + MinMaxIdentities {
    /// The lesser of two scalars.
    spec fn min_spec(self, rhs: Self) -> Self;

    /// The greater of two scalars.
    spec fn max_spec(self, rhs: Self) -> Self;

    fn lane_min(self, rhs: Self) -> (r: Self)
        ensures
            r == self.min_spec(rhs),
    ;

    fn lane_max(self, rhs: Self) -> (r: Self)
        ensures
            r == self.max_spec(rhs),
    ;

    /// Minimum is associative and commutative, and the greatest value is
    /// neutral.
    proof fn min_laws(a: Self, b: Self, c: Self)
        ensures
            a.min_spec(b).min_spec(c) == a.min_spec(b.min_spec(c)),
            a.min_spec(b) == b.min_spec(a),
            Self::min_identity_spec().min_spec(a) == a,
    ;

    /// Maximum is associative and commutative, and the least value is
    /// neutral.
    proof fn max_laws(a: Self, b: Self, c: Self)
        ensures
            a.max_spec(b).max_spec(c) == a.max_spec(b.max_spec(c)),
            a.max_spec(b) == b.max_spec(a),
            Self::max_identity_spec().max_spec(a) == a,
    ;
}

/// A scalar with bitwise operations.
pub trait IntElement: Copy + Sized {
    /// The scalar with no bit set.
    spec fn no_bits_spec() -> Self;

    /// The scalar with every bit set.
    spec fn all_bits_spec() -> Self;

    spec fn and_spec(self, rhs: Self) -> Self;

    spec fn or_spec(self, rhs: Self) -> Self;

    spec fn xor_spec(self, rhs: Self) -> Self;

    fn no_bits() -> (r: Self)
        ensures
            r == Self::no_bits_spec(),
    ;

    fn all_bits() -> (r: Self)
        ensures
            r == Self::all_bits_spec(),
    ;

    fn lane_and(self, rhs: Self) -> (r: Self)
        ensures
            r == self.and_spec(rhs),
    ;

    fn lane_or(self, rhs: Self) -> (r: Self)
        ensures
            r == self.or_spec(rhs),
    ;

    fn lane_xor(self, rhs: Self) -> (r: Self)
        ensures
            r == self.xor_spec(rhs),
    ;

    /// AND is associative and commutative, and all-bits-set is neutral.
    proof fn and_laws(a: Self, b: Self, c: Self)
        ensures
            a.and_spec(b).and_spec(c) == a.and_spec(b.and_spec(c)),
            a.and_spec(b) == b.and_spec(a),
            Self::all_bits_spec().and_spec(a) == a,
    ;

    /// OR is associative and commutative, and all-bits-zero is neutral.
    proof fn or_laws(a: Self, b: Self, c: Self)
        ensures
            a.or_spec(b).or_spec(c) == a.or_spec(b.or_spec(c)),
            a.or_spec(b) == b.or_spec(a),
            Self::no_bits_spec().or_spec(a) == a,
    ;

    /// XOR is associative and commutative, and all-bits-zero is neutral.
    proof fn xor_laws(a: Self, b: Self, c: Self)
        ensures
            a.xor_spec(b).xor_spec(c) == a.xor_spec(b.xor_spec(c)),
            a.xor_spec(b) == b.xor_spec(a),
            Self::no_bits_spec().xor_spec(a) == a,
    ;
}

/// Wrapping addition as a binary operation on scalars.
pub open spec fn add_op<T: NumElement>() -> spec_fn(T, T) -> T {
    |a: T, b: T| a.add_spec(b)
}

/// Wrapping addition with zero is a commutative monoid.
pub proof fn lemma_add_monoid<T: NumElement>()
    ensures
        commutative_monoid(add_op::<T>(), T::zero_spec()),
{
    let op = add_op::<T>();
    let e = T::zero_spec();
    assert forall|a: T, b: T, c: T| #[trigger] op(op(a, b), c) == op(a, op(b, c)) by {
        T::add_laws(a, b, c);
    }
    assert forall|a: T, b: T| #[trigger] op(a, b) == op(b, a) by {
        T::add_laws(a, b, a);
    }
    assert forall|a: T| #[trigger] op(e, a) == a by {
        T::add_laws(a, a, a);
    }
    reveal(commutative_monoid);
}

/// Wrapping multiplication as a binary operation on scalars.
pub open spec fn mul_op<T: NumElement>() -> spec_fn(T, T) -> T {
    |a: T, b: T| a.mul_spec(b)
}

/// Wrapping multiplication with one is a commutative monoid.
pub proof fn lemma_mul_monoid<T: NumElement>()
    ensures
        commutative_monoid(mul_op::<T>(), T::one_spec()),
{
    let op = mul_op::<T>();
    let e = T::one_spec();
    assert forall|a: T, b: T, c: T| #[trigger] op(op(a, b), c) == op(a, op(b, c)) by {
        T::mul_laws(a, b, c);
    }
    assert forall|a: T, b: T| #[trigger] op(a, b) == op(b, a) by {
        T::mul_laws(a, b, a);
    }
    assert forall|a: T| #[trigger] op(e, a) == a by {
        T::mul_laws(a, a, a);
    }
    reveal(commutative_monoid);
}

/// Minimum as a binary operation on scalars.
pub open spec fn min_op<T: OrdElement>() -> spec_fn(T, T) -> T {
    |a: T, b: T| a.min_spec(b)
}

/// Minimum with the greatest value is a commutative monoid.
pub proof fn lemma_min_monoid<T: OrdElement>()
    ensures
        commutative_monoid(min_op::<T>(), T::min_identity_spec()),
{
    let op = min_op::<T>();
    let e = T::min_identity_spec();
    assert forall|a: T, b: T, c: T| #[trigger] op(op(a, b), c) == op(a, op(b, c)) by {
        T::min_laws(a, b, c);
    }
    assert forall|a: T, b: T| #[trigger] op(a, b) == op(b, a) by {
        T::min_laws(a, b, a);
    }
    assert forall|a: T| #[trigger] op(e, a) == a by {
        T::min_laws(a, a, a);
    }
    reveal(commutative_monoid);
}

/// Maximum as a binary operation on scalars.
pub open spec fn max_op<T: OrdElement>() -> spec_fn(T, T) -> T {
    |a: T, b: T| a.max_spec(b)
}

/// Maximum with the least value is a commutative monoid.
pub proof fn lemma_max_monoid<T: OrdElement>()
    ensures
        commutative_monoid(max_op::<T>(), T::max_identity_spec()),
{
    let op = max_op::<T>();
    let e = T::max_identity_spec();
    assert forall|a: T, b: T, c: T| #[trigger] op(op(a, b), c) == op(a, op(b, c)) by {
        T::max_laws(a, b, c);
    }
    assert forall|a: T, b: T| #[trigger] op(a, b) == op(b, a) by {
        T::max_laws(a, b, a);
    }
    assert forall|a: T| #[trigger] op(e, a) == a by {
        T::max_laws(a, a, a);
    }
    reveal(commutative_monoid);
}

/// Bitwise AND as a binary operation on scalars.
pub open spec fn and_op<T: IntElement>() -> spec_fn(T, T) -> T {
    |a: T, b: T| a.and_spec(b)
}

/// Bitwise AND with all-bits-set is a commutative monoid.
pub proof fn lemma_and_monoid<T: IntElement>()
    ensures
        commutative_monoid(and_op::<T>(), T::all_bits_spec()),
{
    let op = and_op::<T>();
    let e = T::all_bits_spec();
    assert forall|a: T, b: T, c: T| #[trigger] op(op(a, b), c) == op(a, op(b, c)) by {
        T::and_laws(a, b, c);
    }
    assert forall|a: T, b: T| #[trigger] op(a, b) == op(b, a) by {
        T::and_laws(a, b, a);
    }
    assert forall|a: T| #[trigger] op(e, a) == a by {
        T::and_laws(a, a, a);
    }
    reveal(commutative_monoid);
}

/// Bitwise OR as a binary operation on scalars.
pub open spec fn or_op<T: IntElement>() -> spec_fn(T, T) -> T {
    |a: T, b: T| a.or_spec(b)
}

/// Bitwise OR with all-bits-zero is a commutative monoid.
pub proof fn lemma_or_monoid<T: IntElement>()
    ensures
        commutative_monoid(or_op::<T>(), T::no_bits_spec()),
{
    let op = or_op::<T>();
    let e = T::no_bits_spec();
    assert forall|a: T, b: T, c: T| #[trigger] op(op(a, b), c) == op(a, op(b, c)) by {
        T::or_laws(a, b, c);
    }
    assert forall|a: T, b: T| #[trigger] op(a, b) == op(b, a) by {
        T::or_laws(a, b, a);
    }
    assert forall|a: T| #[trigger] op(e, a) == a by {
        T::or_laws(a, a, a);
    }
    reveal(commutative_monoid);
}

/// Bitwise XOR as a binary operation on scalars.
pub open spec fn xor_op<T: IntElement>() -> spec_fn(T, T) -> T {
    |a: T, b: T| a.xor_spec(b)
}

/// Bitwise XOR with all-bits-zero is a commutative monoid.
pub proof fn lemma_xor_monoid<T: IntElement>()
    ensures
        commutative_monoid(xor_op::<T>(), T::no_bits_spec()),
{
    let op = xor_op::<T>();
    let e = T::no_bits_spec();
    assert forall|a: T, b: T, c: T| #[trigger] op(op(a, b), c) == op(a, op(b, c)) by {
        T::xor_laws(a, b, c);
    }
    assert forall|a: T, b: T| #[trigger] op(a, b) == op(b, a) by {
        T::xor_laws(a, b, a);
    }
    assert forall|a: T| #[trigger] op(e, a) == a by {
        T::xor_laws(a, a, a);
    }
    reveal(commutative_monoid);
}

} // verus!
