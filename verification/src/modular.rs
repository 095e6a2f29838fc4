//! Facts of modular arithmetic behind the wrapping product.

use vstd::prelude::*;
use vstd::arithmetic::div_mod::{lemma_mul_mod_noop_general, lemma_mod_multiples_vanish};
use vstd::arithmetic::mul::{lemma_mul_is_associative};

verus! {

/// Reducing a partial product modulo `m` before multiplying further does not
/// change the residue of the whole product, on either side.
pub proof fn lemma_mod_mul_assoc(x: int, y: int, z: int, p: int, q: int, m: int)
    requires
        m > 0,
        p % m == (x * y) % m,
        q % m == (y * z) % m,
    ensures
        (p * z) % m == (x * q) % m,
{
    lemma_mul_mod_noop_general(p, z, m);
    lemma_mul_mod_noop_general(x * y, z, m);
    lemma_mul_mod_noop_general(x, q, m);
    lemma_mul_mod_noop_general(x, y * z, m);
    lemma_mul_is_associative(x, y, z);
}

/// A residue, and the residue moved down by one modulus, are both congruent
/// to the number they came from.
pub proof fn lemma_crop_congruent(v: int, m: int)
    requires
        m > 0,
    ensures
        (v % m) % m == v % m,
        ((v % m) - m) % m == v % m,
        0 <= v % m < m,
{
    lemma_mod_multiples_vanish(-1, v % m, m);
    vstd::arithmetic::div_mod::lemma_mod_twice(v, m);
    vstd::arithmetic::div_mod::lemma_mod_bound(v, m);
}

} // verus!
