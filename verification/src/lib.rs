//! Lane-parallel iteration over flat sequences of scalars, and the
//! associative reductions built on it.

use vstd::prelude::*;
use vstd::slice::slice_subrange;
use crate::element::{
    NumElement, OrdElement, IntElement, add_op, mul_op, min_op, max_op, and_op, or_op, xor_op,
    lemma_add_monoid, lemma_mul_monoid, lemma_min_monoid, lemma_max_monoid, lemma_and_monoid,
    lemma_or_monoid, lemma_xor_monoid,
};
use crate::integer::SimdIntegerIterExt;
use crate::monoid::{flatten, fold_lanes, reduce, uniform, zip_with};
use crate::num::SimdNumIterExt;
use crate::ord::SimdOrdIterExt;
use crate::padding::{padded_groups, lemma_padded_reduce, lemma_padded_uniform};
use crate::partition::{
    chunks, partition, lemma_chunks_skip, lemma_chunk_bounds, lemma_flatten_chunks,
    lemma_partition_invariant, lemma_partition_lengths,
};
use crate::vector::{Simd, Vector};

pub mod element;
pub mod integer;
pub mod min_max_identities;
pub mod modular;
pub mod monoid;
pub mod num;
pub mod ord;
pub mod padding;
pub mod partition;
pub mod signed;
pub mod unsigned;
pub mod vector;

verus! {

/// A cursor over the full-width groups of a partitioned slice, which also
/// keeps the ragged remainders before and after them.
pub struct SimdIter<'a, T, const LANES: usize> {
    prefix: &'a [T],
    aligned: &'a [T],
    postfix: &'a [T],
    groups: usize,
}

/// A cursor over the groups of a partitioned slice in which each non-empty
/// ragged remainder is one more group, filled up with a pad value.
pub struct SimdIterPadded<'a, T, const LANES: usize> {
    inner: SimdIter<'a, T, LANES>,
    pad_value: T,
}

/// A sequence of scalars that can be walked in groups.
pub trait SimdIterable<T: Copy> {
    /// The scalars in order.
    spec fn elements(&self) -> Seq<T>;

    /// The partition of the elements for groups of 32 lanes.
    fn simd_iter(&self) -> (r: SimdIter<'_, T, 32>)
        ensures
            r.wf(),
            r.is_partition(partition(self.elements(), 32)),
            uniform(r.vectors(), 32),
            r.head() + flatten(r.vectors()) + r.tail() == self.elements(),
            r.remaining() == self.elements(),
    ;

    /// The partition of the elements for groups of `LANES` lanes.
    fn simd_iter_with_width<const LANES: usize>(&self) -> (r: SimdIter<'_, T, LANES>)
        requires
            LANES > 0,
        ensures
            r.wf(),
            r.is_partition(partition(self.elements(), LANES as nat)),
            uniform(r.vectors(), LANES as nat),
            r.head() + flatten(r.vectors()) + r.tail() == self.elements(),
            r.remaining() == self.elements(),
    ;
}

impl<T: Copy> SimdIterable<T> for [T] {
    open spec fn elements(&self) -> Seq<T> {
        self@
    }

    fn simd_iter(&self) -> (r: SimdIter<'_, T, 32>) {
        self.simd_iter_with_width::<32>()
    }

    fn simd_iter_with_width<const LANES: usize>(&self) -> (r: SimdIter<'_, T, LANES>) {
        let len = self.len();
        proof {
            lemma_partition_lengths(len as nat, LANES as nat);
            lemma_partition_invariant(self@, LANES as nat);
        }
        if len < LANES {
            let empty = slice_subrange(self, len, len);
            let r = SimdIter { prefix: self, aligned: empty, postfix: empty, groups: 0 };
            proof {
                let p = partition(self@, LANES as nat);
                assert(r.head() =~= p.prefix);
                assert(r.tail() =~= p.postfix);
                assert(r.vectors() =~= p.vectors);
                lemma_flatten_chunks(r.body(), r.count(), LANES as nat);
            }
            r
        } else {
            let groups = len / LANES;
            let tail = len % LANES;
            let r = SimdIter {
                prefix: slice_subrange(self, 0, 0),
                aligned: slice_subrange(self, 0, len - tail),
                postfix: slice_subrange(self, len - tail, len),
                groups,
            };
            proof {
                let p = partition(self@, LANES as nat);
                assert(r.head() =~= p.prefix);
                assert(r.tail() =~= p.postfix);
                assert(r.body() =~= self@.subrange(0, (0 + groups * LANES) as int));
                lemma_flatten_chunks(r.body(), r.count(), LANES as nat);
            }
            r
        }
    }
}

impl<'a, T: Copy, const LANES: usize> SimdIter<'a, T, LANES> {
    /// The ragged remainder before the groups.
    pub closed spec fn head(&self) -> Seq<T> {
        self.prefix@
    }

    /// The elements of the groups that are still to come.
    pub closed spec fn body(&self) -> Seq<T> {
        self.aligned@
    }

    /// The ragged remainder after the groups.
    pub closed spec fn tail(&self) -> Seq<T> {
        self.postfix@
    }

    /// The number of groups that are still to come.
    pub closed spec fn count(&self) -> nat {
        self.groups as nat
    }

    /// The remainders are shorter than a group, and the body is made of
    /// whole groups.
    pub open spec fn wf(&self) -> bool {
        &&& LANES > 0
        &&& self.head().len() < LANES
        &&& self.tail().len() < LANES
        &&& self.body().len() == self.count() * LANES
    }

    /// The groups that are still to come.
    pub open spec fn vectors(&self) -> Seq<Seq<T>> {
        chunks(self.body(), self.count(), LANES as nat)
    }

    /// Every scalar that the cursor still holds, in order.
    pub open spec fn remaining(&self) -> Seq<T> {
        self.head() + self.body() + self.tail()
    }

    /// The cursor holds exactly the parts of `p`.
    pub open spec fn is_partition(&self, p: crate::partition::Partition<T>) -> bool {
        &&& self.head() == p.prefix
        &&& self.vectors() == p.vectors
        &&& self.tail() == p.postfix
    }

    /// The ragged remainder before the groups.
    pub fn prefix(&self) -> (r: &[T])
        ensures
            r@ == self.head(),
    {
        self.prefix
    }

    /// The ragged remainder after the groups.
    pub fn postfix(&self) -> (r: &[T])
        ensures
            r@ == self.tail(),
    {
        self.postfix
    }

    /// The number of groups that are still to come.
    pub fn len(&self) -> (r: usize)
        ensures
            r == self.vectors().len(),
    {
        self.groups
    }

    /// The number of groups that are still to come, as a lower and an upper
    /// bound that agree.
    pub fn size_hint(&self) -> (r: (usize, Option<usize>))
        ensures
            r.0 == self.vectors().len(),
            r.1 == Some(r.0),
    {
        (self.groups, Some(self.groups))
    }

    /// The next group, if there is one; the cursor moves past it.
    pub fn next(&mut self) -> (r: Option<Simd<T, LANES>>)
        requires
            old(self).wf(),
        ensures
            final(self).wf(),
            final(self).head() == old(self).head(),
            final(self).tail() == old(self).tail(),
            old(self).vectors().len() == 0 ==> r.is_none() && final(self).body() == old(
                self,
            ).body(),
            old(self).vectors().len() > 0 ==> r.is_some() && r.unwrap()@ == old(self).vectors()[0]
                && final(self).vectors() == old(self).vectors().skip(1) && final(self).body()
                == old(self).body().skip(LANES as int),
    {
        if self.groups == 0 {
            None
        } else {
            proof {
                lemma_chunk_bounds(0, self.groups as int, LANES as int);
                lemma_chunks_skip(self.aligned@, self.groups as nat, LANES as nat, 1);
                assert(self.aligned@.take(LANES as int) =~= self.aligned@.subrange(
                    0 * LANES,
                    0 * LANES + LANES,
                ));
            }
            let group = Simd::from_slice(self.aligned);
            self.aligned = slice_subrange(self.aligned, LANES, self.aligned.len());
            self.groups = self.groups - 1;
            Some(group)
        }
    }

    /// The group `n` places ahead, if there is one; the cursor moves past
    /// it, or to the end where there is none.
    pub fn nth(&mut self, n: usize) -> (r: Option<Simd<T, LANES>>)
        requires
            old(self).wf(),
        ensures
            final(self).wf(),
            final(self).head() == old(self).head(),
            final(self).tail() == old(self).tail(),
            n >= old(self).vectors().len() ==> r.is_none() && final(self).vectors().len() == 0
                && final(self).body().len() == 0,
            n < old(self).vectors().len() ==> r.is_some() && r.unwrap()@ == old(
                self,
            ).vectors()[n as int] && final(self).vectors() == old(self).vectors().skip(n + 1)
                && final(self).body() == old(self).body().skip((n + 1) * LANES),
    {
        if n < self.groups {
            proof {
                lemma_chunks_skip(self.aligned@, self.groups as nat, LANES as nat, n as nat);
                assert((n as nat) * (LANES as nat) == n * LANES) by (nonlinear_arith);
            }
            let ghost before = self.vectors();
            let ghost elements = self.aligned@;
            let ghost total = self.groups;
            let end = self.aligned.len();
            assert(n * LANES <= end);
            self.aligned = slice_subrange(self.aligned, n * LANES, end);
            self.groups = self.groups - n;
            assert(self.vectors() == before.skip(n as int));
            let r = self.next();
            proof {
                assert(before.skip(n as int).skip(1) =~= before.skip(n + 1));
                lemma_chunk_bounds(n as int, total as int, LANES as int);
                assert(elements.skip(n * LANES).skip(LANES as int) =~= elements.skip(
                    (n + 1) * LANES,
                ));
            }
            r
        } else {
            self.aligned = slice_subrange(self.aligned, 0, 0);
            self.groups = 0;
            None
        }
    }

    /// The same cursor, with the remainders filled up by `value`.
    pub fn padded_with(self, value: T) -> (r: SimdIterPadded<'a, T, LANES>)
        ensures
            r.iter() == self,
            r.pad() == value,
    {
        SimdIterPadded { inner: self, pad_value: value }
    }
}

impl<'a, T: Copy, const LANES: usize> SimdIterPadded<'a, T, LANES> {
    /// The cursor that is wrapped.
    pub closed spec fn iter(&self) -> SimdIter<'a, T, LANES> {
        self.inner
    }

    /// The value that fills the lanes beyond a ragged remainder.
    pub closed spec fn pad(&self) -> T {
        self.pad_value
    }

    /// The wrapped cursor is well formed.
    pub open spec fn wf(&self) -> bool {
        self.iter().wf()
    }

    /// The groups that are still to come: the padded head if there is a
    /// head, the full groups, and the padded tail if there is a tail.
    pub open spec fn groups(&self) -> Seq<Seq<T>> {
        padded_groups(
            self.iter().head(),
            self.iter().vectors(),
            self.iter().tail(),
            LANES as nat,
            self.pad(),
        )
    }

    /// Every group that is still to come is a full group.
    pub proof fn lemma_groups_uniform(&self)
        requires
            self.wf(),
        ensures
            uniform(self.groups(), LANES as nat),
    {
        lemma_flatten_chunks(self.iter().body(), self.iter().count(), LANES as nat);
        lemma_padded_uniform(
            self.iter().head(),
            self.iter().vectors(),
            self.iter().tail(),
            LANES as nat,
            self.pad(),
        );
    }

    /// The groups that are still to come, folded from the left by
    /// `combine`, lane by lane; nothing where no group is left.
    pub(crate) fn reduce<F: Fn(Simd<T, LANES>, Simd<T, LANES>) -> Simd<T, LANES>>(
        self,
        combine: F,
        Ghost(op): Ghost<spec_fn(T, T) -> T>,
    ) -> (r: Option<Simd<T, LANES>>)
        requires
            self.wf(),
            forall|a: Simd<T, LANES>, b: Simd<T, LANES>| combine.requires((a, b)),
            forall|a: Simd<T, LANES>, b: Simd<T, LANES>, c: Simd<T, LANES>|
                combine.ensures((a, b), c) ==> c@ == zip_with(a@, b@, op),
        ensures
            self.groups().len() == 0 ==> r.is_none(),
            self.groups().len() > 0 ==> r.is_some() && r.unwrap()@ == fold_lanes(
                self.groups(),
                op,
            ),
    {
        let ghost all = self.groups();
        let mut walk = self;
        let first = walk.next();
        if first.is_none() {
            return None;
        }
        let mut acc = first.unwrap();
        let ghost mut done: int = 1;
        assert(all.take(1) =~= seq![all[0]]);
        let mut following = walk.next();
        while following.is_some()
            invariant
                walk.wf(),
                1 <= done <= all.len(),
                forall|a: Simd<T, LANES>, b: Simd<T, LANES>| combine.requires((a, b)),
                forall|a: Simd<T, LANES>, b: Simd<T, LANES>, c: Simd<T, LANES>|
                    combine.ensures((a, b), c) ==> c@ == zip_with(a@, b@, op),
                acc@ == fold_lanes(all.take(done), op),
                following.is_some() ==> done < all.len() && following.unwrap()@ == all[done]
                    && walk.groups() == all.skip(done + 1),
                following.is_none() ==> done == all.len(),
            decreases all.len() - done,
        {
            let group = following.unwrap();
            acc = combine(acc, group);
            proof {
                assert(all.take(done + 1).drop_last() =~= all.take(done));
                assert(all.take(done + 1).last() == all[done]);
                done = done + 1;
            }
            let ghost left = walk.groups();
            following = walk.next();
            proof {
                if left.len() > 0 {
                    assert(left[0] == all[done]);
                    assert(left.skip(1) =~= all.skip(done + 1));
                } else {
                    assert(all.skip(done).len() == 0);
                }
            }
        }
        assert(all.take(done) =~= all);
        Some(acc)
    }

    /// The number of groups that are still to come: the full groups, and
    /// one more for each remainder that is not empty.
    pub fn len(&self) -> (r: usize)
        requires
            self.wf(),
        ensures
            r == self.groups().len(),
            r == self.iter().vectors().len() + (if self.iter().head().len() > 0 {
                1nat
            } else {
                0nat
            }) + (if self.iter().tail().len() > 0 {
                1nat
            } else {
                0nat
            }),
    {
        let full = self.inner.groups;
        let bodies = self.inner.aligned.len();
        proof {
            // A remainder needs a width of two or more, and then the full
            // groups fill at most half of what a slice can hold.
            if LANES >= 2 {
                assert(full * 2 <= full * LANES) by (nonlinear_arith)
                    requires
                        LANES >= 2,
                        full >= 0,
                ;
            }
        }
        let mut n: usize = full;
        if self.inner.prefix.len() > 0 {
            n = n + 1;
        }
        if self.inner.postfix.len() > 0 {
            n = n + 1;
        }
        n
    }

    /// The number of groups that are still to come, as a lower and an upper
    /// bound that agree.
    pub fn size_hint(&self) -> (r: (usize, Option<usize>))
        requires
            self.wf(),
        ensures
            r.0 == self.groups().len(),
            r.1 == Some(r.0),
    {
        let n = self.len();
        (n, Some(n))
    }

    /// The next group, if there is one; the cursor moves past it.
    pub fn next(&mut self) -> (r: Option<Simd<T, LANES>>)
        requires
            old(self).wf(),
        ensures
            final(self).wf(),
            final(self).pad() == old(self).pad(),
            old(self).groups().len() == 0 ==> r.is_none() && final(self).groups().len() == 0,
            old(self).groups().len() > 0 ==> r.is_some() && r.unwrap()@ == old(self).groups()[0]
                && final(self).groups() == old(self).groups().skip(1),
    {
        let ghost before = self.groups();
        if self.inner.prefix.len() > 0 {
            let group = Simd::from_slice_padded(self.inner.prefix, self.pad_value);
            self.inner.prefix = slice_subrange(self.inner.prefix, 0, 0);
            assert(self.groups() =~= before.skip(1));
            Some(group)
        } else if self.inner.groups > 0 {
            let r = self.inner.next();
            assert(self.groups() =~= before.skip(1));
            r
        } else if self.inner.postfix.len() > 0 {
            let group = Simd::from_slice_padded(self.inner.postfix, self.pad_value);
            self.inner.postfix = slice_subrange(self.inner.postfix, 0, 0);
            assert(self.groups() =~= before.skip(1));
            Some(group)
        } else {
            None
        }
    }
}

impl<'a, T: NumElement, const LANES: usize> SimdIter<'a, T, LANES> {
    /// The wrapping sum of all the scalars that are left, the prefix and the
    /// postfix included: what adding them up one by one from zero gives.
    pub fn scalar_sum(self) -> (r: T)
        requires
            self.wf(),
        ensures
            r == self.remaining().fold_left(T::zero_spec(), add_op::<T>()),
            self.remaining().len() == 0 ==> r == T::zero_spec(),
    {
        proof {
            lemma_add_monoid::<T>();
            lemma_flatten_chunks(self.body(), self.count(), LANES as nat);
            lemma_padded_reduce(
                self.head(),
                self.vectors(),
                self.tail(),
                LANES as nat,
                add_op::<T>(),
                T::zero_spec(),
            );
        }
        self.padded_with(T::zero()).scalar_sum()
    }

    /// The wrapping product of all the scalars that are left, the prefix and
    /// the postfix included: what multiplying them one by one from one gives.
    pub fn scalar_product(self) -> (r: T)
        requires
            self.wf(),
        ensures
            r == self.remaining().fold_left(T::one_spec(), mul_op::<T>()),
            self.remaining().len() == 0 ==> r == T::one_spec(),
    {
        proof {
            lemma_mul_monoid::<T>();
            lemma_flatten_chunks(self.body(), self.count(), LANES as nat);
            lemma_padded_reduce(
                self.head(),
                self.vectors(),
                self.tail(),
                LANES as nat,
                mul_op::<T>(),
                T::one_spec(),
            );
        }
        self.padded_with(T::one()).scalar_product()
    }
}

impl<'a, T: OrdElement, const LANES: usize> SimdIter<'a, T, LANES> {
    /// The least of all the scalars that are left, the prefix and the postfix
    /// included; nothing where none is left.
    pub fn scalar_min(self) -> (r: Option<T>)
        requires
            self.wf(),
        ensures
            r == reduce(self.remaining(), min_op::<T>()),
            r.is_none() <==> self.remaining().len() == 0,
    {
        proof {
            lemma_min_monoid::<T>();
            lemma_flatten_chunks(self.body(), self.count(), LANES as nat);
            lemma_padded_reduce(
                self.head(),
                self.vectors(),
                self.tail(),
                LANES as nat,
                min_op::<T>(),
                T::min_identity_spec(),
            );
        }
        self.padded_with(T::min_identity()).scalar_min()
    }

    /// The greatest of all the scalars that are left, the prefix and the
    /// postfix included; nothing where none is left.
    pub fn scalar_max(self) -> (r: Option<T>)
        requires
            self.wf(),
        ensures
            r == reduce(self.remaining(), max_op::<T>()),
            r.is_none() <==> self.remaining().len() == 0,
    {
        proof {
            lemma_max_monoid::<T>();
            lemma_flatten_chunks(self.body(), self.count(), LANES as nat);
            lemma_padded_reduce(
                self.head(),
                self.vectors(),
                self.tail(),
                LANES as nat,
                max_op::<T>(),
                T::max_identity_spec(),
            );
        }
        self.padded_with(T::max_identity()).scalar_max()
    }
}

impl<'a, T: IntElement, const LANES: usize> SimdIter<'a, T, LANES> {
    /// The bitwise AND of all the scalars that are left, the prefix and the
    /// postfix included; nothing where none is left.
    pub fn scalar_reduce_and(self) -> (r: Option<T>)
        requires
            self.wf(),
        ensures
            r == reduce(self.remaining(), and_op::<T>()),
            r.is_none() <==> self.remaining().len() == 0,
    {
        proof {
            lemma_and_monoid::<T>();
            lemma_flatten_chunks(self.body(), self.count(), LANES as nat);
            lemma_padded_reduce(
                self.head(),
                self.vectors(),
                self.tail(),
                LANES as nat,
                and_op::<T>(),
                T::all_bits_spec(),
            );
        }
        self.padded_with(T::all_bits()).scalar_reduce_and()
    }

    /// The bitwise OR of all the scalars that are left, the prefix and the
    /// postfix included; nothing where none is left.
    pub fn scalar_reduce_or(self) -> (r: Option<T>)
        requires
            self.wf(),
        ensures
            r == reduce(self.remaining(), or_op::<T>()),
            r.is_none() <==> self.remaining().len() == 0,
    {
        proof {
            lemma_or_monoid::<T>();
            lemma_flatten_chunks(self.body(), self.count(), LANES as nat);
            lemma_padded_reduce(
                self.head(),
                self.vectors(),
                self.tail(),
                LANES as nat,
                or_op::<T>(),
                T::no_bits_spec(),
            );
        }
        self.padded_with(T::no_bits()).scalar_reduce_or()
    }

    /// The bitwise XOR of all the scalars that are left, the prefix and the
    /// postfix included; nothing where none is left.
    pub fn scalar_reduce_xor(self) -> (r: Option<T>)
        requires
            self.wf(),
        ensures
            r == reduce(self.remaining(), xor_op::<T>()),
            r.is_none() <==> self.remaining().len() == 0,
    {
        proof {
            lemma_xor_monoid::<T>();
            lemma_flatten_chunks(self.body(), self.count(), LANES as nat);
            lemma_padded_reduce(
                self.head(),
                self.vectors(),
                self.tail(),
                LANES as nat,
                xor_op::<T>(),
                T::no_bits_spec(),
            );
        }
        self.padded_with(T::no_bits()).scalar_reduce_xor()
    }
}

} // verus!

