//! Folds of sequences under an associative, commutative operation with a
//! neutral element, and why folding lane by lane gives the same result as
//! folding element by element.

use vstd::prelude::*;

verus! {

/// `op` is associative and commutative, and `e` is neutral under it.
#[verifier::opaque]
pub open spec fn commutative_monoid<T>(op: spec_fn(T, T) -> T, e: T) -> bool {
    &&& forall|a: T, b: T, c: T| #[trigger] op(op(a, b), c) == op(a, op(b, c))
    &&& forall|a: T, b: T| #[trigger] op(a, b) == op(b, a)
    &&& forall|a: T| #[trigger] op(e, a) == a
}

/// The sequential reduction of `s`: nothing for the empty sequence, else the
/// left fold of the rest from the first element.
pub open spec fn reduce<T>(s: Seq<T>, op: spec_fn(T, T) -> T) -> Option<T> {
    if s.len() == 0 {
        None
    } else {
        Some(s.skip(1).fold_left(s[0], op))
    }
}

/// Two groups combined lane by lane.
pub open spec fn zip_with<T>(a: Seq<T>, b: Seq<T>, op: spec_fn(T, T) -> T) -> Seq<T> {
    Seq::new(a.len(), |i: int| op(a[i], b[i]))
}

/// A group of `n` lanes that holds `pad` in each.
pub open spec fn filled<T>(n: nat, pad: T) -> Seq<T> {
    Seq::new(n, |i: int| pad)
}

/// The first `n` elements of `s`, followed by `pad` up to `n` lanes where
/// `s` is shorter.
pub open spec fn pad_to<T>(s: Seq<T>, n: nat, pad: T) -> Seq<T> {
    Seq::new(
        n,
        |i: int|
            if i < s.len() {
                s[i]
            } else {
                pad
            },
    )
}

/// All groups, one after the other, as one flat sequence.
pub open spec fn flatten<T>(groups: Seq<Seq<T>>) -> Seq<T>
    decreases groups.len(),
{
    if groups.len() == 0 {
        Seq::empty()
    } else {
        flatten(groups.drop_last()) + groups.last()
    }
}

/// The groups folded from the left, lane by lane; the first group where
/// there is only one, and the empty group where there is none.
pub open spec fn fold_lanes<T>(groups: Seq<Seq<T>>, op: spec_fn(T, T) -> T) -> Seq<T>
    decreases groups.len(),
{
    if groups.len() == 0 {
        Seq::empty()
    } else if groups.len() == 1 {
        groups[0]
    } else {
        zip_with(fold_lanes(groups.drop_last(), op), groups.last(), op)
    }
}

/// Every group has `n` lanes.
pub open spec fn uniform<T>(groups: Seq<Seq<T>>, n: nat) -> bool {
    forall|j: int| 0 <= j < groups.len() ==> (#[trigger] groups[j]).len() == n
}

/// Associativity, for three given elements.
pub proof fn lemma_assoc<T>(op: spec_fn(T, T) -> T, e: T, a: T, b: T, c: T)
    requires
        commutative_monoid(op, e),
    ensures
        op(op(a, b), c) == op(a, op(b, c)),
{
    reveal(commutative_monoid);
}

/// Commutativity, for two given elements.
pub proof fn lemma_comm<T>(op: spec_fn(T, T) -> T, e: T, a: T, b: T)
    requires
        commutative_monoid(op, e),
    ensures
        op(a, b) == op(b, a),
{
    reveal(commutative_monoid);
}

/// Neutrality of `e` on either side, for a given element.
pub proof fn lemma_neutral<T>(op: spec_fn(T, T) -> T, e: T, a: T)
    requires
        commutative_monoid(op, e),
    ensures
        op(e, a) == a,
        op(a, e) == a,
{
    reveal(commutative_monoid);
}

/// In a commutative monoid `(x * y) * (u * v) == (x * u) * (y * v)`.
pub proof fn lemma_interchange<T>(op: spec_fn(T, T) -> T, e: T, x: T, y: T, u: T, v: T)
    requires
        commutative_monoid(op, e),
    ensures
        op(op(x, y), op(u, v)) == op(op(x, u), op(y, v)),
{
    lemma_assoc(op, e, x, y, op(u, v));
    lemma_assoc(op, e, y, u, v);
    lemma_comm(op, e, y, u);
    lemma_assoc(op, e, u, y, v);
    lemma_assoc(op, e, x, u, op(y, v));
}

/// A factor of the initial value can be taken out of a fold.
pub proof fn lemma_fold_init<T>(s: Seq<T>, op: spec_fn(T, T) -> T, e: T, x: T, y: T)
    requires
        commutative_monoid(op, e),
    ensures
        s.fold_left(op(x, y), op) == op(x, s.fold_left(y, op)),
    decreases s.len(),
{
    if s.len() > 0 {
        lemma_fold_init(s.drop_last(), op, e, x, y);
        let t = s.drop_last().fold_left(y, op);
        lemma_assoc(op, e, x, t, s.last());
    }
}

/// The fold of a concatenation is the combination of the two folds.
pub proof fn lemma_fold_concat<T>(a: Seq<T>, b: Seq<T>, op: spec_fn(T, T) -> T, e: T)
    requires
        commutative_monoid(op, e),
    ensures
        (a + b).fold_left(e, op) == op(a.fold_left(e, op), b.fold_left(e, op)),
    decreases b.len(),
{
    let fa = a.fold_left(e, op);
    if b.len() == 0 {
        assert(a + b =~= a);
        lemma_neutral(op, e, fa);
    } else {
        lemma_fold_concat(a, b.drop_last(), op, e);
        assert((a + b).drop_last() =~= a + b.drop_last());
        assert((a + b).last() == b.last());
        let fb = b.drop_last().fold_left(e, op);
        lemma_assoc(op, e, fa, fb, b.last());
    }
}

/// A group of neutral elements folds to the neutral element.
pub proof fn lemma_fold_filled<T>(n: nat, op: spec_fn(T, T) -> T, e: T)
    requires
        commutative_monoid(op, e),
    ensures
        filled(n, e).fold_left(e, op) == e,
    decreases n,
{
    if n > 0 {
        lemma_fold_filled((n - 1) as nat, op, e);
        assert(filled(n, e).drop_last() =~= filled((n - 1) as nat, e));
        lemma_neutral(op, e, e);
    }
}

/// Padding a short group with the neutral element leaves its fold unchanged.
pub proof fn lemma_fold_padded<T>(s: Seq<T>, n: nat, op: spec_fn(T, T) -> T, e: T)
    requires
        commutative_monoid(op, e),
        s.len() <= n,
    ensures
        pad_to(s, n, e).fold_left(e, op) == s.fold_left(e, op),
{
    let rest = filled((n - s.len()) as nat, e);
    assert(pad_to(s, n, e) =~= s + rest);
    lemma_fold_concat(s, rest, op, e);
    lemma_fold_filled((n - s.len()) as nat, op, e);
    lemma_neutral(op, e, s.fold_left(e, op));
}

/// Folding two groups lane by lane first, and the lanes of the result
/// after, combines the folds of the two groups.
pub proof fn lemma_fold_zip<T>(a: Seq<T>, b: Seq<T>, op: spec_fn(T, T) -> T, e: T)
    requires
        commutative_monoid(op, e),
        a.len() == b.len(),
    ensures
        zip_with(a, b, op).fold_left(e, op) == op(a.fold_left(e, op), b.fold_left(e, op)),
    decreases a.len(),
{
    if a.len() == 0 {
        lemma_neutral(op, e, e);
    } else {
        lemma_fold_zip(a.drop_last(), b.drop_last(), op, e);
        assert(zip_with(a, b, op).drop_last() =~= zip_with(a.drop_last(), b.drop_last(), op));
        assert(zip_with(a, b, op).last() == op(a.last(), b.last()));
        lemma_interchange(
            op,
            e,
            a.drop_last().fold_left(e, op),
            b.drop_last().fold_left(e, op),
            a.last(),
            b.last(),
        );
    }
}

/// The lane-wise fold of uniform groups has their width.
pub proof fn lemma_fold_lanes_len<T>(groups: Seq<Seq<T>>, n: nat, op: spec_fn(T, T) -> T)
    requires
        uniform(groups, n),
        groups.len() > 0,
    ensures
        fold_lanes(groups, op).len() == n,
    decreases groups.len(),
{
    if groups.len() > 1 {
        lemma_fold_lanes_len(groups.drop_last(), n, op);
    }
}

/// Folding uniform groups lane by lane, and then the lanes of the result,
/// gives the fold of all their elements in order.
pub proof fn lemma_fold_lanes<T>(groups: Seq<Seq<T>>, n: nat, op: spec_fn(T, T) -> T, e: T)
    requires
        commutative_monoid(op, e),
        uniform(groups, n),
        groups.len() > 0,
    ensures
        fold_lanes(groups, op).fold_left(e, op) == flatten(groups).fold_left(e, op),
    decreases groups.len(),
{
    if groups.len() == 1 {
        assert(groups.drop_last().len() == 0);
        assert(flatten(groups.drop_last()) =~= Seq::<T>::empty());
        assert(flatten(groups) =~= groups[0]);
    } else {
        let init = groups.drop_last();
        lemma_fold_lanes(init, n, op, e);
        lemma_fold_lanes_len(init, n, op);
        lemma_fold_zip(fold_lanes(init, op), groups.last(), op, e);
        lemma_fold_concat(flatten(init), groups.last(), op, e);
    }
}

/// A single element folds to itself.
pub proof fn lemma_fold_one<T>(x: T, op: spec_fn(T, T) -> T, e: T)
    requires
        commutative_monoid(op, e),
    ensures
        seq![x].fold_left(e, op) == x,
{
    let one = seq![x];
    assert(one.drop_last() =~= Seq::<T>::empty());
    assert(one.drop_last().fold_left(e, op) == e);
    assert(one.last() == x);
    lemma_neutral(op, e, x);
}

/// Where there is a neutral element, the reduction of a non-empty sequence
/// is its fold from that element.
pub proof fn lemma_reduce_is_fold<T>(s: Seq<T>, op: spec_fn(T, T) -> T, e: T)
    requires
        commutative_monoid(op, e),
        s.len() > 0,
    ensures
        reduce(s, op) == Some(s.fold_left(e, op)),
{
    let first = seq![s[0]];
    let rest = s.skip(1);
    assert(s =~= first + rest);
    lemma_fold_concat(first, rest, op, e);
    lemma_fold_one(s[0], op, e);
    lemma_fold_init(rest, op, e, s[0], e);
    lemma_neutral(op, e, s[0]);
}

} // verus!
