//! The unsigned integers as lane scalars.

use vstd::prelude::*;
use vstd::arithmetic::mul::lemma_mul_is_commutative;
use vstd::wrapping::{u8_specs, u16_specs, u32_specs, u64_specs, usize_specs};
use crate::element::{NumElement, OrdElement, IntElement};
use crate::min_max_identities::MinMaxIdentities;
use crate::modular::{lemma_crop_congruent, lemma_mod_mul_assoc};

verus! {

/// The bitwise laws of `u8`, all of them facts about bit vectors.
proof fn bit_laws_u8(a: u8, b: u8, c: u8)
    by (bit_vector)
    ensures
        (a & b) & c == a & (b & c),
        a & b == b & a,
        !0u8 & a == a,
        (a | b) | c == a | (b | c),
        a | b == b | a,
        0u8 | a == a,
        (a ^ b) ^ c == a ^ (b ^ c),
        a ^ b == b ^ a,
        0u8 ^ a == a,
{
}

impl MinMaxIdentities for u8 {
    open spec fn min_identity_spec() -> u8 {
        u8::MAX
    }

    open spec fn max_identity_spec() -> u8 {
        u8::MIN
    }

    fn min_identity() -> u8 {
        u8::MAX
    }

    fn max_identity() -> u8 {
        u8::MIN
    }
}

impl NumElement for u8 {
    open spec fn zero_spec() -> u8 {
        0
    }

    open spec fn one_spec() -> u8 {
        1
    }

    open spec fn add_spec(self, rhs: u8) -> u8 {
        u8_specs::wrapping_add(self, rhs)
    }

    open spec fn mul_spec(self, rhs: u8) -> u8 {
        u8_specs::wrapping_mul(self, rhs)
    }

    fn zero() -> u8 {
        0
    }

    fn one() -> u8 {
        1
    }

    fn lane_add(self, rhs: u8) -> u8 {
        self.wrapping_add(rhs)
    }

    fn lane_mul(self, rhs: u8) -> u8 {
        self.wrapping_mul(rhs)
    }

    proof fn add_laws(a: u8, b: u8, c: u8) {
    }

    proof fn mul_laws(a: u8, b: u8, c: u8) {
        let m: int = 0x100;
        // A wrapped product is congruent to the plain one, so wrapping the
        // inner product first changes nothing modulo the range.
        lemma_crop_congruent(a * b, m);
        lemma_crop_congruent(b * c, m);
        let p = a.mul_spec(b) as int;
        let q = b.mul_spec(c) as int;
        lemma_mod_mul_assoc(a as int, b as int, c as int, p, q, m);
        lemma_crop_congruent(p * c, m);
        lemma_crop_congruent(a * q, m);
        lemma_mul_is_commutative(a as int, b as int);
        lemma_crop_congruent(1 * a, m);
    }
}

impl OrdElement for u8 {
    open spec fn min_spec(self, rhs: u8) -> u8 {
        if rhs < self {
            rhs
        } else {
            self
        }
    }

    open spec fn max_spec(self, rhs: u8) -> u8 {
        if rhs > self {
            rhs
        } else {
            self
        }
    }

    fn lane_min(self, rhs: u8) -> u8 {
        if rhs < self {
            rhs
        } else {
            self
        }
    }

    fn lane_max(self, rhs: u8) -> u8 {
        if rhs > self {
            rhs
        } else {
            self
        }
    }

    proof fn min_laws(a: u8, b: u8, c: u8) {
    }

    proof fn max_laws(a: u8, b: u8, c: u8) {
    }
}

impl IntElement for u8 {
    open spec fn no_bits_spec() -> u8 {
        0
    }

    open spec fn all_bits_spec() -> u8 {
        !0u8
    }

    open spec fn and_spec(self, rhs: u8) -> u8 {
        self & rhs
    }

    open spec fn or_spec(self, rhs: u8) -> u8 {
        self | rhs
    }

    open spec fn xor_spec(self, rhs: u8) -> u8 {
        self ^ rhs
    }

    fn no_bits() -> u8 {
        0
    }

    fn all_bits() -> u8 {
        !0u8
    }

    fn lane_and(self, rhs: u8) -> u8 {
        self & rhs
    }

    fn lane_or(self, rhs: u8) -> u8 {
        self | rhs
    }

    fn lane_xor(self, rhs: u8) -> u8 {
        self ^ rhs
    }

    proof fn and_laws(a: u8, b: u8, c: u8) {
        bit_laws_u8(a, b, c);
    }

    proof fn or_laws(a: u8, b: u8, c: u8) {
        bit_laws_u8(a, b, c);
    }

    proof fn xor_laws(a: u8, b: u8, c: u8) {
        bit_laws_u8(a, b, c);
    }
}

/// The bitwise laws of `u16`, all of them facts about bit vectors.
proof fn bit_laws_u16(a: u16, b: u16, c: u16)
    by (bit_vector)
    ensures
        (a & b) & c == a & (b & c),
        a & b == b & a,
        !0u16 & a == a,
        (a | b) | c == a | (b | c),
        a | b == b | a,
        0u16 | a == a,
        (a ^ b) ^ c == a ^ (b ^ c),
        a ^ b == b ^ a,
        0u16 ^ a == a,
{
}

impl MinMaxIdentities for u16 {
    open spec fn min_identity_spec() -> u16 {
        u16::MAX
    }

    open spec fn max_identity_spec() -> u16 {
        u16::MIN
    }

    fn min_identity() -> u16 {
        u16::MAX
    }

    fn max_identity() -> u16 {
        u16::MIN
    }
}

impl NumElement for u16 {
    open spec fn zero_spec() -> u16 {
        0
    }

    open spec fn one_spec() -> u16 {
        1
    }

    open spec fn add_spec(self, rhs: u16) -> u16 {
        u16_specs::wrapping_add(self, rhs)
    }

    open spec fn mul_spec(self, rhs: u16) -> u16 {
        u16_specs::wrapping_mul(self, rhs)
    }

    fn zero() -> u16 {
        0
    }

    fn one() -> u16 {
        1
    }

    fn lane_add(self, rhs: u16) -> u16 {
        self.wrapping_add(rhs)
    }

    fn lane_mul(self, rhs: u16) -> u16 {
        self.wrapping_mul(rhs)
    }

    proof fn add_laws(a: u16, b: u16, c: u16) {
    }

    proof fn mul_laws(a: u16, b: u16, c: u16) {
        let m: int = 0x1_0000;
        // A wrapped product is congruent to the plain one, so wrapping the
        // inner product first changes nothing modulo the range.
        lemma_crop_congruent(a * b, m);
        lemma_crop_congruent(b * c, m);
        let p = a.mul_spec(b) as int;
        let q = b.mul_spec(c) as int;
        lemma_mod_mul_assoc(a as int, b as int, c as int, p, q, m);
        lemma_crop_congruent(p * c, m);
        lemma_crop_congruent(a * q, m);
        lemma_mul_is_commutative(a as int, b as int);
        lemma_crop_congruent(1 * a, m);
    }
}

impl OrdElement for u16 {
    open spec fn min_spec(self, rhs: u16) -> u16 {
        if rhs < self {
            rhs
        } else {
            self
        }
    }

    open spec fn max_spec(self, rhs: u16) -> u16 {
        if rhs > self {
            rhs
        } else {
            self
        }
    }

    fn lane_min(self, rhs: u16) -> u16 {
        if rhs < self {
            rhs
        } else {
            self
        }
    }

    fn lane_max(self, rhs: u16) -> u16 {
        if rhs > self {
            rhs
        } else {
            self
        }
    }

    proof fn min_laws(a: u16, b: u16, c: u16) {
    }

    proof fn max_laws(a: u16, b: u16, c: u16) {
    }
}

impl IntElement for u16 {
    open spec fn no_bits_spec() -> u16 {
        0
    }

    open spec fn all_bits_spec() -> u16 {
        !0u16
    }

    open spec fn and_spec(self, rhs: u16) -> u16 {
        self & rhs
    }

    open spec fn or_spec(self, rhs: u16) -> u16 {
        self | rhs
    }

    open spec fn xor_spec(self, rhs: u16) -> u16 {
        self ^ rhs
    }

    fn no_bits() -> u16 {
        0
    }

    fn all_bits() -> u16 {
        !0u16
    }

    fn lane_and(self, rhs: u16) -> u16 {
        self & rhs
    }

    fn lane_or(self, rhs: u16) -> u16 {
        self | rhs
    }

    fn lane_xor(self, rhs: u16) -> u16 {
        self ^ rhs
    }

    proof fn and_laws(a: u16, b: u16, c: u16) {
        bit_laws_u16(a, b, c);
    }

    proof fn or_laws(a: u16, b: u16, c: u16) {
        bit_laws_u16(a, b, c);
    }

    proof fn xor_laws(a: u16, b: u16, c: u16) {
        bit_laws_u16(a, b, c);
    }
}

/// The bitwise laws of `u32`, all of them facts about bit vectors.
proof fn bit_laws_u32(a: u32, b: u32, c: u32)
    by (bit_vector)
    ensures
        (a & b) & c == a & (b & c),
        a & b == b & a,
        !0u32 & a == a,
        (a | b) | c == a | (b | c),
        a | b == b | a,
        0u32 | a == a,
        (a ^ b) ^ c == a ^ (b ^ c),
        a ^ b == b ^ a,
        0u32 ^ a == a,
{
}

impl MinMaxIdentities for u32 {
    open spec fn min_identity_spec() -> u32 {
        u32::MAX
    }

    open spec fn max_identity_spec() -> u32 {
        u32::MIN
    }

    fn min_identity() -> u32 {
        u32::MAX
    }

    fn max_identity() -> u32 {
        u32::MIN
    }
}

impl NumElement for u32 {
    open spec fn zero_spec() -> u32 {
        0
    }

    open spec fn one_spec() -> u32 {
        1
    }

    open spec fn add_spec(self, rhs: u32) -> u32 {
        u32_specs::wrapping_add(self, rhs)
    }

    open spec fn mul_spec(self, rhs: u32) -> u32 {
        u32_specs::wrapping_mul(self, rhs)
    }

    fn zero() -> u32 {
        0
    }

    fn one() -> u32 {
        1
    }

    fn lane_add(self, rhs: u32) -> u32 {
        self.wrapping_add(rhs)
    }

    fn lane_mul(self, rhs: u32) -> u32 {
        self.wrapping_mul(rhs)
    }

    proof fn add_laws(a: u32, b: u32, c: u32) {
    }

    proof fn mul_laws(a: u32, b: u32, c: u32) {
        let m: int = 0x1_0000_0000;
        // A wrapped product is congruent to the plain one, so wrapping the
        // inner product first changes nothing modulo the range.
        lemma_crop_congruent(a * b, m);
        lemma_crop_congruent(b * c, m);
        let p = a.mul_spec(b) as int;
        let q = b.mul_spec(c) as int;
        lemma_mod_mul_assoc(a as int, b as int, c as int, p, q, m);
        lemma_crop_congruent(p * c, m);
        lemma_crop_congruent(a * q, m);
        lemma_mul_is_commutative(a as int, b as int);
        lemma_crop_congruent(1 * a, m);
    }
}

impl OrdElement for u32 {
    open spec fn min_spec(self, rhs: u32) -> u32 {
        if rhs < self {
            rhs
        } else {
            self
        }
    }

    open spec fn max_spec(self, rhs: u32) -> u32 {
        if rhs > self {
            rhs
        } else {
            self
        }
    }

    fn lane_min(self, rhs: u32) -> u32 {
        if rhs < self {
            rhs
        } else {
            self
        }
    }

    fn lane_max(self, rhs: u32) -> u32 {
        if rhs > self {
            rhs
        } else {
            self
        }
    }

    proof fn min_laws(a: u32, b: u32, c: u32) {
    }

    proof fn max_laws(a: u32, b: u32, c: u32) {
    }
}

impl IntElement for u32 {
    open spec fn no_bits_spec() -> u32 {
        0
    }

    open spec fn all_bits_spec() -> u32 {
        !0u32
    }

    open spec fn and_spec(self, rhs: u32) -> u32 {
        self & rhs
    }

    open spec fn or_spec(self, rhs: u32) -> u32 {
        self | rhs
    }

    open spec fn xor_spec(self, rhs: u32) -> u32 {
        self ^ rhs
    }

    fn no_bits() -> u32 {
        0
    }

    fn all_bits() -> u32 {
        !0u32
    }

    fn lane_and(self, rhs: u32) -> u32 {
        self & rhs
    }

    fn lane_or(self, rhs: u32) -> u32 {
        self | rhs
    }

    fn lane_xor(self, rhs: u32) -> u32 {
        self ^ rhs
    }

    proof fn and_laws(a: u32, b: u32, c: u32) {
        bit_laws_u32(a, b, c);
    }

    proof fn or_laws(a: u32, b: u32, c: u32) {
        bit_laws_u32(a, b, c);
    }

    proof fn xor_laws(a: u32, b: u32, c: u32) {
        bit_laws_u32(a, b, c);
    }
}

/// The bitwise laws of `u64`, all of them facts about bit vectors.
proof fn bit_laws_u64(a: u64, b: u64, c: u64)
    by (bit_vector)
    ensures
        (a & b) & c == a & (b & c),
        a & b == b & a,
        !0u64 & a == a,
        (a | b) | c == a | (b | c),
        a | b == b | a,
        0u64 | a == a,
        (a ^ b) ^ c == a ^ (b ^ c),
        a ^ b == b ^ a,
        0u64 ^ a == a,
{
}

impl MinMaxIdentities for u64 {
    open spec fn min_identity_spec() -> u64 {
        u64::MAX
    }

    open spec fn max_identity_spec() -> u64 {
        u64::MIN
    }

    fn min_identity() -> u64 {
        u64::MAX
    }

    fn max_identity() -> u64 {
        u64::MIN
    }
}

impl NumElement for u64 {
    open spec fn zero_spec() -> u64 {
        0
    }

    open spec fn one_spec() -> u64 {
        1
    }

    open spec fn add_spec(self, rhs: u64) -> u64 {
        u64_specs::wrapping_add(self, rhs)
    }

    open spec fn mul_spec(self, rhs: u64) -> u64 {
        u64_specs::wrapping_mul(self, rhs)
    }

    fn zero() -> u64 {
        0
    }

    fn one() -> u64 {
        1
    }

    fn lane_add(self, rhs: u64) -> u64 {
        self.wrapping_add(rhs)
    }

    fn lane_mul(self, rhs: u64) -> u64 {
        self.wrapping_mul(rhs)
    }

    proof fn add_laws(a: u64, b: u64, c: u64) {
    }

    proof fn mul_laws(a: u64, b: u64, c: u64) {
        let m: int = 0x1_0000_0000_0000_0000;
        // A wrapped product is congruent to the plain one, so wrapping the
        // inner product first changes nothing modulo the range.
        lemma_crop_congruent(a * b, m);
        lemma_crop_congruent(b * c, m);
        let p = a.mul_spec(b) as int;
        let q = b.mul_spec(c) as int;
        lemma_mod_mul_assoc(a as int, b as int, c as int, p, q, m);
        lemma_crop_congruent(p * c, m);
        lemma_crop_congruent(a * q, m);
        lemma_mul_is_commutative(a as int, b as int);
        lemma_crop_congruent(1 * a, m);
    }
}

impl OrdElement for u64 {
    open spec fn min_spec(self, rhs: u64) -> u64 {
        if rhs < self {
            rhs
        } else {
            self
        }
    }

    open spec fn max_spec(self, rhs: u64) -> u64 {
        if rhs > self {
            rhs
        } else {
            self
        }
    }

    fn lane_min(self, rhs: u64) -> u64 {
        if rhs < self {
            rhs
        } else {
            self
        }
    }

    fn lane_max(self, rhs: u64) -> u64 {
        if rhs > self {
            rhs
        } else {
            self
        }
    }

    proof fn min_laws(a: u64, b: u64, c: u64) {
    }

    proof fn max_laws(a: u64, b: u64, c: u64) {
    }
}

impl IntElement for u64 {
    open spec fn no_bits_spec() -> u64 {
        0
    }

    open spec fn all_bits_spec() -> u64 {
        !0u64
    }

    open spec fn and_spec(self, rhs: u64) -> u64 {
        self & rhs
    }

    open spec fn or_spec(self, rhs: u64) -> u64 {
        self | rhs
    }

    open spec fn xor_spec(self, rhs: u64) -> u64 {
        self ^ rhs
    }

    fn no_bits() -> u64 {
        0
    }

    fn all_bits() -> u64 {
        !0u64
    }

    fn lane_and(self, rhs: u64) -> u64 {
        self & rhs
    }

    fn lane_or(self, rhs: u64) -> u64 {
        self | rhs
    }

    fn lane_xor(self, rhs: u64) -> u64 {
        self ^ rhs
    }

    proof fn and_laws(a: u64, b: u64, c: u64) {
        bit_laws_u64(a, b, c);
    }

    proof fn or_laws(a: u64, b: u64, c: u64) {
        bit_laws_u64(a, b, c);
    }

    proof fn xor_laws(a: u64, b: u64, c: u64) {
        bit_laws_u64(a, b, c);
    }
}

/// The bitwise laws of `usize`, all of them facts about bit vectors.
proof fn bit_laws_usize(a: usize, b: usize, c: usize)
    by (bit_vector)
    ensures
        (a & b) & c == a & (b & c),
        a & b == b & a,
        !0usize & a == a,
        (a | b) | c == a | (b | c),
        a | b == b | a,
        0usize | a == a,
        (a ^ b) ^ c == a ^ (b ^ c),
        a ^ b == b ^ a,
        0usize ^ a == a,
{
}

impl MinMaxIdentities for usize {
    open spec fn min_identity_spec() -> usize {
        usize::MAX
    }

    open spec fn max_identity_spec() -> usize {
        usize::MIN
    }

    fn min_identity() -> usize {
        usize::MAX
    }

    fn max_identity() -> usize {
        usize::MIN
    }
}

impl NumElement for usize {
    open spec fn zero_spec() -> usize {
        0
    }

    open spec fn one_spec() -> usize {
        1
    }

    open spec fn add_spec(self, rhs: usize) -> usize {
        usize_specs::wrapping_add(self, rhs)
    }

    open spec fn mul_spec(self, rhs: usize) -> usize {
        usize_specs::wrapping_mul(self, rhs)
    }

    fn zero() -> usize {
        0
    }

    fn one() -> usize {
        1
    }

    fn lane_add(self, rhs: usize) -> usize {
        self.wrapping_add(rhs)
    }

    fn lane_mul(self, rhs: usize) -> usize {
        self.wrapping_mul(rhs)
    }

    proof fn add_laws(a: usize, b: usize, c: usize) {
    }

    proof fn mul_laws(a: usize, b: usize, c: usize) {
        let m: int = usize::MAX - usize::MIN + 1;
        // A wrapped product is congruent to the plain one, so wrapping the
        // inner product first changes nothing modulo the range.
        lemma_crop_congruent(a * b, m);
        lemma_crop_congruent(b * c, m);
        let p = a.mul_spec(b) as int;
        let q = b.mul_spec(c) as int;
        lemma_mod_mul_assoc(a as int, b as int, c as int, p, q, m);
        lemma_crop_congruent(p * c, m);
        lemma_crop_congruent(a * q, m);
        lemma_mul_is_commutative(a as int, b as int);
        lemma_crop_congruent(1 * a, m);
    }
}

impl OrdElement for usize {
    open spec fn min_spec(self, rhs: usize) -> usize {
        if rhs < self {
            rhs
        } else {
            self
        }
    }

    open spec fn max_spec(self, rhs: usize) -> usize {
        if rhs > self {
            rhs
        } else {
            self
        }
    }

    fn lane_min(self, rhs: usize) -> usize {
        if rhs < self {
            rhs
        } else {
            self
        }
    }

    fn lane_max(self, rhs: usize) -> usize {
        if rhs > self {
            rhs
        } else {
            self
        }
    }

    proof fn min_laws(a: usize, b: usize, c: usize) {
    }

    proof fn max_laws(a: usize, b: usize, c: usize) {
    }
}

impl IntElement for usize {
    open spec fn no_bits_spec() -> usize {
        0
    }

    open spec fn all_bits_spec() -> usize {
        !0usize
    }

    open spec fn and_spec(self, rhs: usize) -> usize {
        self & rhs
    }

    open spec fn or_spec(self, rhs: usize) -> usize {
        self | rhs
    }

    open spec fn xor_spec(self, rhs: usize) -> usize {
        self ^ rhs
    }

    fn no_bits() -> usize {
        0
    }

    fn all_bits() -> usize {
        !0usize
    }

    fn lane_and(self, rhs: usize) -> usize {
        self & rhs
    }

    fn lane_or(self, rhs: usize) -> usize {
        self | rhs
    }

    fn lane_xor(self, rhs: usize) -> usize {
        self ^ rhs
    }

    proof fn and_laws(a: usize, b: usize, c: usize) {
        bit_laws_usize(a, b, c);
    }

    proof fn or_laws(a: usize, b: usize, c: usize) {
        bit_laws_usize(a, b, c);
    }

    proof fn xor_laws(a: usize, b: usize, c: usize) {
        bit_laws_usize(a, b, c);
    }
}

} // verus!
