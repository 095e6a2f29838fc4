//! How a flat sequence is split into a ragged head, full-width groups and a
//! ragged tail.

use vstd::prelude::*;
use vstd::arithmetic::div_mod::{lemma_fundamental_div_mod, lemma_mod_bound};
use crate::monoid::{flatten, uniform};

verus! {

/// A sequence split for width `n`: the elements before the groups, the
/// groups of `n` elements each, and the elements after them.
pub struct Partition<T> {
    pub prefix: Seq<T>,
    pub vectors: Seq<Seq<T>>,
    pub postfix: Seq<T>,
}

/// `body` cut into `count` consecutive groups of `n` elements.
pub open spec fn chunks<T>(body: Seq<T>, count: nat, n: nat) -> Seq<Seq<T>> {
    Seq::new(count, |j: int| body.subrange(j * n, j * n + n))
}

/// How many elements go before the groups: all of them where not even one
/// group can be filled, else none.
pub open spec fn prefix_len(len: nat, n: nat) -> nat {
    if len < n {
        len
    } else {
        0
    }
}

/// How many full groups there are.
pub open spec fn group_count(len: nat, n: nat) -> nat {
    if len < n || n == 0 {
        0
    } else {
        len / n
    }
}

/// The partition of `data` for width `n`.
pub open spec fn partition<T>(data: Seq<T>, n: nat) -> Partition<T> {
    let p = prefix_len(data.len(), n);
    let g = group_count(data.len(), n);
    Partition {
        prefix: data.take(p as int),
        vectors: chunks(data.subrange(p as int, (p + g * n) as int), g, n),
        postfix: data.skip((p + g * n) as int),
    }
}

impl<T> Partition<T> {
    /// All elements of the partition in order.
    pub open spec fn concat(self) -> Seq<T> {
        self.prefix + flatten(self.vectors) + self.postfix
    }
}

/// Where group `j` of `count` groups of width `n` begins and ends.
pub proof fn lemma_chunk_bounds(j: int, count: int, n: int)
    requires
        0 <= j < count,
        n > 0,
    ensures
        0 <= j * n,
        j * n + n <= count * n,
        (j + 1) * n == j * n + n,
        (count - 1) * n == count * n - n,
{
    assert(0 <= j * n && j * n + n <= count * n && (j + 1) * n == j * n + n && (count - 1) * n
        == count * n - n) by (nonlinear_arith)
        requires
            0 <= j < count,
            n > 0,
    ;
}

/// The groups after the first `k` are the groups of what follows the first
/// `k * n` elements.
pub proof fn lemma_chunks_skip<T>(body: Seq<T>, count: nat, n: nat, k: nat)
    requires
        n > 0,
        k <= count,
        body.len() == count * n,
    ensures
        0 <= k * n <= body.len(),
        body.skip((k * n) as int).len() == (count - k) * n,
        chunks(body.skip((k * n) as int), (count - k) as nat, n) == chunks(body, count, n).skip(k as int),
{
    assert(0 <= k * n <= count * n && (count - k) * n == count * n - k * n) by (nonlinear_arith)
        requires
            0 <= k <= count,
            n > 0,
    ;
    let left = chunks(body.skip((k * n) as int), (count - k) as nat, n);
    let right = chunks(body, count, n).skip(k as int);
    assert forall|j: int| 0 <= j < count - k implies left[j] == right[j] by {
        lemma_chunk_bounds(j, count - k, n as int);
        lemma_chunk_bounds(j + k, count as int, n as int);
        assert((j + k) * n == j * n + k * n) by (nonlinear_arith);
        assert(body.skip((k * n) as int).subrange(j * n, j * n + n) =~= body.subrange(
            (j + k) * n,
            (j + k) * n + n,
        ));
    }
    assert(left =~= right);
}

/// Cutting a sequence into groups and laying them end to end gives the
/// sequence back.
pub proof fn lemma_flatten_chunks<T>(body: Seq<T>, count: nat, n: nat)
    requires
        n > 0,
        body.len() == count * n,
    ensures
        flatten(chunks(body, count, n)) == body,
        uniform(chunks(body, count, n), n),
    decreases count,
{
    let all = chunks(body, count, n);
    assert forall|j: int| 0 <= j < all.len() implies (#[trigger] all[j]).len() == n by {
        lemma_chunk_bounds(j, count as int, n as int);
    }
    if count == 0 {
        assert(body =~= Seq::<T>::empty());
    } else {
        let m = (count - 1) as nat;
        lemma_chunk_bounds(m as int, count as int, n as int);
        let init = body.take((m * n) as int);
        lemma_flatten_chunks(init, m, n);
        assert forall|j: int| 0 <= j < m implies all.drop_last()[j] == chunks(init, m, n)[j] by {
            lemma_chunk_bounds(j, m as int, n as int);
            assert(init.subrange(j * n, j * n + n) =~= body.subrange(j * n, j * n + n));
        }
        assert(all.drop_last() =~= chunks(init, m, n));
        assert(all.last() == body.subrange((m * n) as int, (m * n + n) as int));
        assert(init + body.subrange((m * n) as int, (m * n + n) as int) =~= body);
    }
}

/// The lengths that a partition is made of add up to the whole, and the
/// tail is shorter than a group.
pub proof fn lemma_partition_lengths(len: nat, n: nat)
    requires
        n > 0,
    ensures
        prefix_len(len, n) < n,
        prefix_len(len, n) + group_count(len, n) * n <= len,
        len - prefix_len(len, n) - group_count(len, n) * n < n,
        len >= n ==> len - group_count(len, n) * n == len % n,
        len < n ==> group_count(len, n) == 0,
{
    if len >= n {
        lemma_fundamental_div_mod(len as int, n as int);
        lemma_mod_bound(len as int, n as int);
        assert(n * (len / n) == (len / n) * n) by (nonlinear_arith);
    } else {
        assert(0 * n == 0);
    }
}

/// The parts of a partition are shorter than a group where they are ragged
/// and exactly a group wide where they are not, and together they are the
/// sequence that was split, in order.
pub proof fn lemma_partition_invariant<T>(data: Seq<T>, n: nat)
    requires
        n >= 1,
    ensures
        partition(data, n).prefix.len() < n,
        partition(data, n).postfix.len() < n,
        uniform(partition(data, n).vectors, n),
        partition(data, n).concat() == data,
        data.len() < n ==> partition(data, n).prefix == data && partition(data, n).vectors.len() == 0
            && partition(data, n).postfix.len() == 0,
{
    let p = prefix_len(data.len(), n);
    let g = group_count(data.len(), n);
    lemma_partition_lengths(data.len(), n);
    let body = data.subrange(p as int, (p + g * n) as int);
    lemma_flatten_chunks(body, g, n);
    assert(data.take(p as int) + body + data.skip((p + g * n) as int) =~= data);
    if data.len() < n {
        assert(data.take(p as int) =~= data);
    }
}

/// Splitting again what a partition holds, at the same width, gives the
/// same partition.
pub proof fn lemma_partition_idempotent<T>(data: Seq<T>, n: nat)
    requires
        n >= 1,
    ensures
        partition(partition(data, n).concat(), n) == partition(data, n),
{
    lemma_partition_invariant(data, n);
}

} // verus!
