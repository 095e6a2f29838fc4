//! The fixed-width group of lanes, and what can be done with one.

use vstd::prelude::*;
use crate::monoid::{fold_lanes, zip_with, filled, pad_to};

verus! {

/// A group of exactly `N` scalars of one type, processed together.
#[derive(Clone, Copy)]
pub struct Simd<T, const N: usize> {
    pub lanes: [T; N],
}

impl<T, const N: usize> View for Simd<T, N> {
    type V = Seq<T>;

    open spec fn view(&self) -> Seq<T> {
        self.lanes@
    }
}

impl<T: Copy, const N: usize> Simd<T, N> {
    /// A group whose lanes are the elements of `lanes`.
    pub fn from_array(lanes: [T; N]) -> (r: Self)
        ensures
            r@ == lanes@,
    {
        Simd { lanes }
    }

    /// The lanes as an array.
    pub fn to_array(self) -> (r: [T; N])
        ensures
            r@ == self@,
    {
        self.lanes
    }

    /// A group that holds `value` in every lane.
    pub fn splat(value: T) -> (r: Self)
        ensures
            r@ == filled(N as nat, value),
    {
        let r = Simd { lanes: [value;N] };
        assert(r@ =~= filled(N as nat, value));
        r
    }

    /// The group made of the first `N` elements of `values`.
    pub fn from_slice(values: &[T]) -> (r: Self)
        requires
            0 < N <= values@.len(),
        ensures
            r@ == values@.take(N as int),
    {
        let mut lanes = [values[0];N];
        let mut i: usize = 0;
        while i < N
            invariant
                i <= N <= values@.len(),
                forall|j: int| 0 <= j < i ==> lanes@[j] == values@[j],
            decreases N - i,
        {
            lanes[i] = values[i];
            i += 1;
        }
        let r = Simd { lanes };
        assert(r@ =~= values@.take(N as int));
        r
    }

    /// The lanes of `a` and `b` combined pairwise by `f`.
    pub(crate) fn zip_lanes<F: Fn(T, T) -> T>(a: Self, b: Self, f: F, Ghost(op): Ghost<spec_fn(T, T) -> T>) -> (r: Self)
        requires
            forall|x: T, y: T| f.requires((x, y)),
            forall|x: T, y: T, z: T| f.ensures((x, y), z) ==> z == op(x, y),
        ensures
            r@ == zip_with(a@, b@, op),
    {
        let mut lanes = a.lanes;
        let mut i: usize = 0;
        while i < N
            invariant
                i <= N,
                forall|x: T, y: T| f.requires((x, y)),
                forall|x: T, y: T, z: T| f.ensures((x, y), z) ==> z == op(x, y),
                forall|j: int| 0 <= j < i ==> lanes@[j] == op(a@[j], b@[j]),
                forall|j: int| i <= j < N ==> lanes@[j] == a@[j],
            decreases N - i,
        {
            lanes[i] = f(lanes[i], b.lanes[i]);
            i += 1;
        }
        let r = Simd { lanes };
        assert(r@ =~= zip_with(a@, b@, op));
        r
    }

    /// The lanes of `v` folded by `f` from the left, starting at `init`.
    pub(crate) fn fold_across<F: Fn(T, T) -> T>(v: Self, init: T, f: F, Ghost(op): Ghost<spec_fn(T, T) -> T>) -> (r: T)
        requires
            forall|x: T, y: T| f.requires((x, y)),
            forall|x: T, y: T, z: T| f.ensures((x, y), z) ==> z == op(x, y),
        ensures
            r == v@.fold_left(init, op),
    {
        let mut acc = init;
        let mut i: usize = 0;
        while i < N
            invariant
                i <= N,
                forall|x: T, y: T| f.requires((x, y)),
                forall|x: T, y: T, z: T| f.ensures((x, y), z) ==> z == op(x, y),
                acc == v@.take(i as int).fold_left(init, op),
            decreases N - i,
        {
            acc = f(acc, v.lanes[i]);
            i += 1;
            assert(v@.take(i as int).drop_last() =~= v@.take(i - 1));
        }
        assert(v@.take(N as int) =~= v@);
        acc
    }
}

/// The lanes of each group of a run of groups.
pub open spec fn lanes_of<T, const N: usize>(groups: Seq<Simd<T, N>>) -> Seq<Seq<T>> {
    Seq::new(groups.len(), |j: int| groups[j]@)
}

/// The groups of `groups` folded from the left by `combine`, lane by lane;
/// nothing where there is no group.
pub(crate) fn reduce_groups<T: Copy, const N: usize, F: Fn(Simd<T, N>, Simd<T, N>) -> Simd<T, N>>(
    groups: &[Simd<T, N>],
    combine: F,
    Ghost(op): Ghost<spec_fn(T, T) -> T>,
) -> (r: Option<Simd<T, N>>)
    requires
        forall|a: Simd<T, N>, b: Simd<T, N>| combine.requires((a, b)),
        forall|a: Simd<T, N>, b: Simd<T, N>, c: Simd<T, N>|
            combine.ensures((a, b), c) ==> c@ == zip_with(a@, b@, op),
    ensures
        groups@.len() == 0 ==> r.is_none(),
        groups@.len() > 0 ==> r.is_some() && r.unwrap()@ == fold_lanes(lanes_of(groups@), op),
{
    if groups.len() == 0 {
        return None;
    }
    let ghost all = lanes_of(groups@);
    let mut acc = groups[0];
    let mut i: usize = 1;
    assert(all.take(1) =~= seq![all[0]]);
    while i < groups.len()
        invariant
            1 <= i <= groups@.len(),
            all == lanes_of(groups@),
            forall|a: Simd<T, N>, b: Simd<T, N>| combine.requires((a, b)),
            forall|a: Simd<T, N>, b: Simd<T, N>, c: Simd<T, N>|
                combine.ensures((a, b), c) ==> c@ == zip_with(a@, b@, op),
            acc@ == fold_lanes(all.take(i as int), op),
        decreases groups@.len() - i,
    {
        acc = combine(acc, groups[i]);
        proof {
            assert(all.take(i + 1).drop_last() =~= all.take(i as int));
            assert(all.take(i + 1).last() == all[i as int]);
        }
        i += 1;
    }
    assert(all.take(i as int) =~= all);
    Some(acc)
}

/// A group that can be built from a ragged remainder.
pub trait Vector: Sized {
    type Element;

    /// The number of lanes.
    spec fn width() -> nat;

    /// The scalars in the lanes, in order.
    spec fn lanes(&self) -> Seq<Self::Element>;

    /// A group whose first lanes hold `values`, as far as they go and fit,
    /// and whose other lanes hold `pad_value`.
    fn from_slice_padded(values: &[Self::Element], pad_value: Self::Element) -> (r: Self)
        ensures
            r.lanes() == pad_to(values@, Self::width(), pad_value),
    ;
}

impl<T: Copy, const N: usize> Vector for Simd<T, N> {
    type Element = T;

    open spec fn width() -> nat {
        N as nat
    }

    open spec fn lanes(&self) -> Seq<T> {
        self@
    }

    fn from_slice_padded(values: &[T], pad_value: T) -> (r: Self) {
        // The values are staged in a buffer of their own that is a full
        // group wide, so the load never reads beyond what `values` holds.
        let mut staged = [pad_value;N];
        let mut i: usize = 0;
        while i < N && i < values.len()
            invariant
                i <= N,
                i <= values@.len(),
                forall|j: int| 0 <= j < i ==> staged@[j] == values@[j],
                forall|j: int| i <= j < N ==> staged@[j] == pad_value,
            decreases N - i,
        {
            staged[i] = values[i];
            i += 1;
        }
        let loaded = Simd { lanes: staged };
        let mask = Mask::<N>::first(values.len());
        let r = mask.select(loaded, Simd::splat(pad_value));
        assert(r@ =~= pad_to(values@, N as nat, pad_value));
        r
    }
}

/// One flag per lane of a group.
#[derive(Clone, Copy)]
pub struct Mask<const N: usize> {
    pub lanes: [bool; N],
}

impl<const N: usize> View for Mask<N> {
    type V = Seq<bool>;

    open spec fn view(&self) -> Seq<bool> {
        self.lanes@
    }
}

impl<const N: usize> Mask<N> {
    /// The mask that is set in the lanes whose index is below `count`, and
    /// in no other.
    pub fn first(count: usize) -> (r: Self)
        ensures
            r@ == Seq::new(N as nat, |i: int| i < count),
    {
        let mut lanes = [false;N];
        let mut i: usize = 0;
        while i < N && i < count
            invariant
                i <= N,
                i <= count,
                forall|j: int| 0 <= j < i ==> lanes@[j],
                forall|j: int| i <= j < N ==> !lanes@[j],
            decreases N - i,
        {
            lanes[i] = true;
            i += 1;
        }
        let r = Mask { lanes };
        assert(r@ =~= Seq::new(N as nat, |i: int| i < count));
        r
    }

    /// The group that holds, in each lane, the lane of `on_true` where the
    /// mask is set and the lane of `on_false` where it is not.
    pub fn select<T: Copy>(self, on_true: Simd<T, N>, on_false: Simd<T, N>) -> (r: Simd<T, N>)
        ensures
            r@ == Seq::new(
                N as nat,
                |i: int|
                    if self@[i] {
                        on_true@[i]
                    } else {
                        on_false@[i]
                    },
            ),
    {
        let mut lanes = on_false.lanes;
        let mut i: usize = 0;
        while i < N
            invariant
                i <= N,
                forall|j: int|
                    0 <= j < i ==> lanes@[j] == if self@[j] {
                        on_true@[j]
                    } else {
                        on_false@[j]
                    },
                forall|j: int| i <= j < N ==> lanes@[j] == on_false@[j],
            decreases N - i,
        {
            if self.lanes[i] {
                lanes[i] = on_true.lanes[i];
            }
            i += 1;
        }
        let r = Simd { lanes };
        assert(r@ =~= Seq::new(
            N as nat,
            |i: int|
                if self@[i] {
                    on_true@[i]
                } else {
                    on_false@[i]
                },
        ));
        r
    }
}

} // verus!
