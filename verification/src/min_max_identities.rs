//! The neutral elements of the lane-wise minimum and maximum.

use vstd::prelude::*;

verus! {

/// A scalar type with a greatest and a least value, which are neutral under
/// minimum and maximum respectively.
pub trait MinMaxIdentities: Sized {
    /// The value that `min` leaves every other value unchanged against: the
    /// greatest one of the type.
    spec fn min_identity_spec() -> Self;

    /// The value that `max` leaves every other value unchanged against: the
    /// least one of the type.
    spec fn max_identity_spec() -> Self;

    fn min_identity() -> (r: Self)
        ensures
            r == Self::min_identity_spec(),
    ;

    fn max_identity() -> (r: Self)
        ensures
            r == Self::max_identity_spec(),
    ;
}

} // verus!
