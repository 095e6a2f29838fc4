//! The groups of a padded walk, and why padding with the neutral element
//! changes no reduction.

use vstd::prelude::*;
use crate::monoid::{
    commutative_monoid, flatten, fold_lanes, pad_to, reduce, uniform, lemma_fold_concat,
    lemma_fold_lanes, lemma_fold_padded, lemma_reduce_is_fold,
};
use crate::partition::{partition, lemma_partition_invariant};

verus! {

/// A ragged remainder as a sequence of groups: none where it is empty, else
/// the one group that holds it, filled up with `pad`.
pub open spec fn padded_remainder<T>(part: Seq<T>, n: nat, pad: T) -> Seq<Seq<T>> {
    if part.len() > 0 {
        seq![pad_to(part, n, pad)]
    } else {
        Seq::empty()
    }
}

/// The groups of a padded walk: the head filled up to a group if there is a
/// head, the full groups, and the tail filled up if there is a tail.
pub open spec fn padded_groups<T>(
    head: Seq<T>,
    vectors: Seq<Seq<T>>,
    tail: Seq<T>,
    n: nat,
    pad: T,
) -> Seq<Seq<T>> {
    padded_remainder(head, n, pad) + vectors + padded_remainder(tail, n, pad)
}

/// Laying out two runs of groups one after the other is laying out each
/// and joining the results.
pub proof fn lemma_flatten_concat<T>(a: Seq<Seq<T>>, b: Seq<Seq<T>>)
    ensures
        flatten(a + b) == flatten(a) + flatten(b),
    decreases b.len(),
{
    if b.len() == 0 {
        assert(a + b =~= a);
        assert(flatten(a) + flatten(b) =~= flatten(a));
    } else {
        lemma_flatten_concat(a, b.drop_last());
        assert((a + b).drop_last() =~= a + b.drop_last());
        assert((a + b).last() == b.last());
        assert(flatten(a) + flatten(b.drop_last()) + b.last() =~= flatten(a) + (flatten(
            b.drop_last(),
        ) + b.last()));
    }
}

/// A padded remainder, laid out flat, is the remainder filled up, or
/// nothing; its fold from the neutral element is that of the remainder.
pub proof fn lemma_padded_remainder<T>(part: Seq<T>, n: nat, op: spec_fn(T, T) -> T, e: T)
    requires
        commutative_monoid(op, e),
        part.len() <= n,
    ensures
        flatten(padded_remainder(part, n, e)).fold_left(e, op) == part.fold_left(e, op),
        part.len() == 0 ==> flatten(padded_remainder(part, n, e)).len() == 0,
        part.len() > 0 ==> flatten(padded_remainder(part, n, e)).len() == n,
{
    let groups = padded_remainder(part, n, e);
    if part.len() > 0 {
        assert(groups.drop_last() =~= Seq::<Seq<T>>::empty());
        assert(flatten(groups.drop_last()) =~= Seq::<T>::empty());
        assert(flatten(groups) =~= pad_to(part, n, e));
        lemma_fold_padded(part, n, op, e);
    } else {
        assert(flatten(groups) =~= part);
    }
}

/// The groups of a padded walk are all full groups.
pub proof fn lemma_padded_uniform<T>(
    head: Seq<T>,
    vectors: Seq<Seq<T>>,
    tail: Seq<T>,
    n: nat,
    pad: T,
)
    requires
        uniform(vectors, n),
    ensures
        uniform(padded_groups(head, vectors, tail, n, pad), n),
{
    let groups = padded_groups(head, vectors, tail, n, pad);
    let first = padded_remainder(head, n, pad);
    assert forall|j: int| 0 <= j < groups.len() implies (#[trigger] groups[j]).len() == n by {
        if j < first.len() {
        } else if j < first.len() + vectors.len() {
            assert(groups[j] == vectors[j - first.len()]);
        } else {
        }
    }
}

/// Filling the ragged remainders up with the neutral element changes
/// neither the fold nor the reduction of the elements: over the groups of a
/// padded walk both are what they are over the elements themselves.
pub proof fn lemma_padded_reduce<T>(
    head: Seq<T>,
    vectors: Seq<Seq<T>>,
    tail: Seq<T>,
    n: nat,
    op: spec_fn(T, T) -> T,
    e: T,
)
    requires
        commutative_monoid(op, e),
        n > 0,
        head.len() < n,
        tail.len() < n,
    ensures
        flatten(padded_groups(head, vectors, tail, n, e)).fold_left(e, op) == (head + flatten(
            vectors,
        ) + tail).fold_left(e, op),
        reduce(flatten(padded_groups(head, vectors, tail, n, e)), op) == reduce(
            head + flatten(vectors) + tail,
            op,
        ),
{
    let first = padded_remainder(head, n, e);
    let last = padded_remainder(tail, n, e);
    let padded = flatten(padded_groups(head, vectors, tail, n, e));
    let plain = head + flatten(vectors) + tail;
    lemma_flatten_concat(first, vectors);
    lemma_flatten_concat(first + vectors, last);
    lemma_padded_remainder(head, n, op, e);
    lemma_padded_remainder(tail, n, op, e);
    lemma_fold_concat(flatten(first), flatten(vectors), op, e);
    lemma_fold_concat(flatten(first) + flatten(vectors), flatten(last), op, e);
    lemma_fold_concat(head, flatten(vectors), op, e);
    lemma_fold_concat(head + flatten(vectors), tail, op, e);
    if plain.len() > 0 {
        lemma_reduce_is_fold(plain, op, e);
        lemma_reduce_is_fold(padded, op, e);
    } else {
        assert(padded.len() == 0);
    }
}

/// The lane-parallel reduction agrees with the sequential one, at every
/// width: split a sequence, fill its ragged remainders up with the neutral
/// element, fold the groups lane by lane and then the lanes of the result,
/// and what comes out is the fold of the sequence from the neutral element;
/// where the sequence is not empty, that is its reduction too.
pub proof fn lemma_vectorized_is_sequential<T>(
    data: Seq<T>,
    n: nat,
    op: spec_fn(T, T) -> T,
    e: T,
)
    requires
        commutative_monoid(op, e),
        n >= 1,
    ensures
        ({
            let p = partition(data, n);
            let groups = padded_groups(p.prefix, p.vectors, p.postfix, n, e);
            &&& fold_lanes(groups, op).fold_left(e, op) == data.fold_left(e, op)
            &&& data.len() > 0 ==> Some(fold_lanes(groups, op).fold_left(e, op)) == reduce(
                data,
                op,
            )
            &&& data.len() == 0 <==> groups.len() == 0
        }),
{
    let p = partition(data, n);
    let groups = padded_groups(p.prefix, p.vectors, p.postfix, n, e);
    lemma_partition_invariant(data, n);
    lemma_padded_uniform(p.prefix, p.vectors, p.postfix, n, e);
    lemma_padded_reduce(p.prefix, p.vectors, p.postfix, n, op, e);
    if groups.len() > 0 {
        lemma_fold_lanes(groups, n, op, e);
        assert(flatten(groups).len() >= groups.last().len());
    } else {
        assert(p.vectors.len() == 0);
        assert(flatten(p.vectors) =~= Seq::<T>::empty());
    }
    if data.len() > 0 {
        lemma_reduce_is_fold(data, op, e);
        assert(groups.len() > 0);
    }
}

} // verus!
