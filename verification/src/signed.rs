//! The signed integers as lane scalars.

use vstd::prelude::*;
use vstd::arithmetic::mul::lemma_mul_is_commutative;
use vstd::wrapping::{i8_specs, i16_specs, i32_specs, i64_specs, isize_specs};
use crate::element::{NumElement, OrdElement, IntElement};
use crate::min_max_identities::MinMaxIdentities;
use crate::modular::{lemma_crop_congruent, lemma_mod_mul_assoc};

verus! {

/// The bitwise laws of `i8`, all of them facts about bit vectors.
proof fn bit_laws_i8(a: i8, b: i8, c: i8)
    by (bit_vector)
    ensures
        (a & b) & c == a & (b & c),
        a & b == b & a,
        !0i8 & a == a,
        (a | b) | c == a | (b | c),
        a | b == b | a,
        0i8 | a == a,
        (a ^ b) ^ c == a ^ (b ^ c),
        a ^ b == b ^ a,
        0i8 ^ a == a,
{
}

impl MinMaxIdentities for i8 {
    open spec fn min_identity_spec() -> i8 {
        i8::MAX
    }

    open spec fn max_identity_spec() -> i8 {
        i8::MIN
    }

    fn min_identity() -> i8 {
        i8::MAX
    }

    fn max_identity() -> i8 {
        i8::MIN
    }
}

impl NumElement for i8 {
    open spec fn zero_spec() -> i8 {
        0
    }

    open spec fn one_spec() -> i8 {
        1
    }

    open spec fn add_spec(self, rhs: i8) -> i8 {
        i8_specs::wrapping_add(self, rhs)
    }

    open spec fn mul_spec(self, rhs: i8) -> i8 {
        i8_specs::wrapping_mul(self, rhs)
    }

    fn zero() -> i8 {
        0
    }

    fn one() -> i8 {
        1
    }

    fn lane_add(self, rhs: i8) -> i8 {
        self.wrapping_add(rhs)
    }

    fn lane_mul(self, rhs: i8) -> i8 {
        self.wrapping_mul(rhs)
    }

    proof fn add_laws(a: i8, b: i8, c: i8) {
    }

    proof fn mul_laws(a: i8, b: i8, c: i8) {
        let m: int = 0x100;
        // A wrapped product is congruent to the plain one, so wrapping the
        // inner product first changes nothing modulo the range.
        lemma_crop_congruent(a * b, m);
        lemma_crop_congruent(b * c, m);
        let p = a.mul_spec(b) as int;
        let q = b.mul_spec(c) as int;
        lemma_mod_mul_assoc(a as int, b as int, c as int, p, q, m);
        lemma_crop_congruent(p * c, m);
        lemma_crop_congruent(a * q, m);
        lemma_mul_is_commutative(a as int, b as int);
        lemma_crop_congruent(1 * a, m);
    }
}

impl OrdElement for i8 {
    open spec fn min_spec(self, rhs: i8) -> i8 {
        if rhs < self {
            rhs
        } else {
            self
        }
    }

    open spec fn max_spec(self, rhs: i8) -> i8 {
        if rhs > self {
            rhs
        } else {
            self
        }
    }

    fn lane_min(self, rhs: i8) -> i8 {
        if rhs < self {
            rhs
        } else {
            self
        }
    }

    fn lane_max(self, rhs: i8) -> i8 {
        if rhs > self {
            rhs
        } else {
            self
        }
    }

    proof fn min_laws(a: i8, b: i8, c: i8) {
    }

    proof fn max_laws(a: i8, b: i8, c: i8) {
    }
}

impl IntElement for i8 {
    open spec fn no_bits_spec() -> i8 {
        0
    }

    open spec fn all_bits_spec() -> i8 {
        !0i8
    }

    open spec fn and_spec(self, rhs: i8) -> i8 {
        self & rhs
    }

    open spec fn or_spec(self, rhs: i8) -> i8 {
        self | rhs
    }

    open spec fn xor_spec(self, rhs: i8) -> i8 {
        self ^ rhs
    }

    fn no_bits() -> i8 {
        0
    }

    fn all_bits() -> i8 {
        !0i8
    }

    fn lane_and(self, rhs: i8) -> i8 {
        self & rhs
    }

    fn lane_or(self, rhs: i8) -> i8 {
        self | rhs
    }

    fn lane_xor(self, rhs: i8) -> i8 {
        self ^ rhs
    }

    proof fn and_laws(a: i8, b: i8, c: i8) {
        bit_laws_i8(a, b, c);
    }

    proof fn or_laws(a: i8, b: i8, c: i8) {
        bit_laws_i8(a, b, c);
    }

    proof fn xor_laws(a: i8, b: i8, c: i8) {
        bit_laws_i8(a, b, c);
    }
}

/// The bitwise laws of `i16`, all of them facts about bit vectors.
proof fn bit_laws_i16(a: i16, b: i16, c: i16)
    by (bit_vector)
    ensures
        (a & b) & c == a & (b & c),
        a & b == b & a,
        !0i16 & a == a,
        (a | b) | c == a | (b | c),
        a | b == b | a,
        0i16 | a == a,
        (a ^ b) ^ c == a ^ (b ^ c),
        a ^ b == b ^ a,
        0i16 ^ a == a,
{
}

impl MinMaxIdentities for i16 {
    open spec fn min_identity_spec() -> i16 {
        i16::MAX
    }

    open spec fn max_identity_spec() -> i16 {
        i16::MIN
    }

    fn min_identity() -> i16 {
        i16::MAX
    }

    fn max_identity() -> i16 {
        i16::MIN
    }
}

impl NumElement for i16 {
    open spec fn zero_spec() -> i16 {
        0
    }

    open spec fn one_spec() -> i16 {
        1
    }

    open spec fn add_spec(self, rhs: i16) -> i16 {
        i16_specs::wrapping_add(self, rhs)
    }

    open spec fn mul_spec(self, rhs: i16) -> i16 {
        i16_specs::wrapping_mul(self, rhs)
    }

    fn zero() -> i16 {
        0
    }

    fn one() -> i16 {
        1
    }

    fn lane_add(self, rhs: i16) -> i16 {
        self.wrapping_add(rhs)
    }

    fn lane_mul(self, rhs: i16) -> i16 {
        self.wrapping_mul(rhs)
    }

    proof fn add_laws(a: i16, b: i16, c: i16) {
    }

    proof fn mul_laws(a: i16, b: i16, c: i16) {
        let m: int = 0x1_0000;
        // A wrapped product is congruent to the plain one, so wrapping the
        // inner product first changes nothing modulo the range.
        lemma_crop_congruent(a * b, m);
        lemma_crop_congruent(b * c, m);
        let p = a.mul_spec(b) as int;
        let q = b.mul_spec(c) as int;
        lemma_mod_mul_assoc(a as int, b as int, c as int, p, q, m);
        lemma_crop_congruent(p * c, m);
        lemma_crop_congruent(a * q, m);
        lemma_mul_is_commutative(a as int, b as int);
        lemma_crop_congruent(1 * a, m);
    }
}

impl OrdElement for i16 {
    open spec fn min_spec(self, rhs: i16) -> i16 {
        if rhs < self {
            rhs
        } else {
            self
        }
    }

    open spec fn max_spec(self, rhs: i16) -> i16 {
        if rhs > self {
            rhs
        } else {
            self
        }
    }

    fn lane_min(self, rhs: i16) -> i16 {
        if rhs < self {
            rhs
        } else {
            self
        }
    }

    fn lane_max(self, rhs: i16) -> i16 {
        if rhs > self {
            rhs
        } else {
            self
        }
    }

    proof fn min_laws(a: i16, b: i16, c: i16) {
    }

    proof fn max_laws(a: i16, b: i16, c: i16) {
    }
}

impl IntElement for i16 {
    open spec fn no_bits_spec() -> i16 {
        0
    }

    open spec fn all_bits_spec() -> i16 {
        !0i16
    }

    open spec fn and_spec(self, rhs: i16) -> i16 {
        self & rhs
    }

    open spec fn or_spec(self, rhs: i16) -> i16 {
        self | rhs
    }

    open spec fn xor_spec(self, rhs: i16) -> i16 {
        self ^ rhs
    }

    fn no_bits() -> i16 {
        0
    }

    fn all_bits() -> i16 {
        !0i16
    }

    fn lane_and(self, rhs: i16) -> i16 {
        self & rhs
    }

    fn lane_or(self, rhs: i16) -> i16 {
        self | rhs
    }

    fn lane_xor(self, rhs: i16) -> i16 {
        self ^ rhs
    }

    proof fn and_laws(a: i16, b: i16, c: i16) {
        bit_laws_i16(a, b, c);
    }

    proof fn or_laws(a: i16, b: i16, c: i16) {
        bit_laws_i16(a, b, c);
    }

    proof fn xor_laws(a: i16, b: i16, c: i16) {
        bit_laws_i16(a, b, c);
    }
}

/// The bitwise laws of `i32`, all of them facts about bit vectors.
proof fn bit_laws_i32(a: i32, b: i32, c: i32)
    by (bit_vector)
    ensures
        (a & b) & c == a & (b & c),
        a & b == b & a,
        !0i32 & a == a,
        (a | b) | c == a | (b | c),
        a | b == b | a,
        0i32 | a == a,
        (a ^ b) ^ c == a ^ (b ^ c),
        a ^ b == b ^ a,
        0i32 ^ a == a,
{
}

impl MinMaxIdentities for i32 {
    open spec fn min_identity_spec() -> i32 {
        i32::MAX
    }

    open spec fn max_identity_spec() -> i32 {
        i32::MIN
    }

    fn min_identity() -> i32 {
        i32::MAX
    }

    fn max_identity() -> i32 {
        i32::MIN
    }
}

impl NumElement for i32 {
    open spec fn zero_spec() -> i32 {
        0
    }

    open spec fn one_spec() -> i32 {
        1
    }

    open spec fn add_spec(self, rhs: i32) -> i32 {
        i32_specs::wrapping_add(self, rhs)
    }

    open spec fn mul_spec(self, rhs: i32) -> i32 {
        i32_specs::wrapping_mul(self, rhs)
    }

    fn zero() -> i32 {
        0
    }

    fn one() -> i32 {
        1
    }

    fn lane_add(self, rhs: i32) -> i32 {
        self.wrapping_add(rhs)
    }

    fn lane_mul(self, rhs: i32) -> i32 {
        self.wrapping_mul(rhs)
    }

    proof fn add_laws(a: i32, b: i32, c: i32) {
    }

    proof fn mul_laws(a: i32, b: i32, c: i32) {
        let m: int = 0x1_0000_0000;
        // A wrapped product is congruent to the plain one, so wrapping the
        // inner product first changes nothing modulo the range.
        lemma_crop_congruent(a * b, m);
        lemma_crop_congruent(b * c, m);
        let p = a.mul_spec(b) as int;
        let q = b.mul_spec(c) as int;
        lemma_mod_mul_assoc(a as int, b as int, c as int, p, q, m);
        lemma_crop_congruent(p * c, m);
        lemma_crop_congruent(a * q, m);
        lemma_mul_is_commutative(a as int, b as int);
        lemma_crop_congruent(1 * a, m);
    }
}

impl OrdElement for i32 {
    open spec fn min_spec(self, rhs: i32) -> i32 {
        if rhs < self {
            rhs
        } else {
            self
        }
    }

    open spec fn max_spec(self, rhs: i32) -> i32 {
        if rhs > self {
            rhs
        } else {
            self
        }
    }

    fn lane_min(self, rhs: i32) -> i32 {
        if rhs < self {
            rhs
        } else {
            self
        }
    }

    fn lane_max(self, rhs: i32) -> i32 {
        if rhs > self {
            rhs
        } else {
            self
        }
    }

    proof fn min_laws(a: i32, b: i32, c: i32) {
    }

    proof fn max_laws(a: i32, b: i32, c: i32) {
    }
}

impl IntElement for i32 {
    open spec fn no_bits_spec() -> i32 {
        0
    }

    open spec fn all_bits_spec() -> i32 {
        !0i32
    }

    open spec fn and_spec(self, rhs: i32) -> i32 {
        self & rhs
    }

    open spec fn or_spec(self, rhs: i32) -> i32 {
        self | rhs
    }

    open spec fn xor_spec(self, rhs: i32) -> i32 {
        self ^ rhs
    }

    fn no_bits() -> i32 {
        0
    }

    fn all_bits() -> i32 {
        !0i32
    }

    fn lane_and(self, rhs: i32) -> i32 {
        self & rhs
    }

    fn lane_or(self, rhs: i32) -> i32 {
        self | rhs
    }

    fn lane_xor(self, rhs: i32) -> i32 {
        self ^ rhs
    }

    proof fn and_laws(a: i32, b: i32, c: i32) {
        bit_laws_i32(a, b, c);
    }

    proof fn or_laws(a: i32, b: i32, c: i32) {
        bit_laws_i32(a, b, c);
    }

    proof fn xor_laws(a: i32, b: i32, c: i32) {
        bit_laws_i32(a, b, c);
    }
}

/// The bitwise laws of `i64`, all of them facts about bit vectors.
proof fn bit_laws_i64(a: i64, b: i64, c: i64)
    by (bit_vector)
    ensures
        (a & b) & c == a & (b & c),
        a & b == b & a,
        !0i64 & a == a,
        (a | b) | c == a | (b | c),
        a | b == b | a,
        0i64 | a == a,
        (a ^ b) ^ c == a ^ (b ^ c),
        a ^ b == b ^ a,
        0i64 ^ a == a,
{
}

impl MinMaxIdentities for i64 {
    open spec fn min_identity_spec() -> i64 {
        i64::MAX
    }

    open spec fn max_identity_spec() -> i64 {
        i64::MIN
    }

    fn min_identity() -> i64 {
        i64::MAX
    }

    fn max_identity() -> i64 {
        i64::MIN
    }
}

impl NumElement for i64 {
    open spec fn zero_spec() -> i64 {
        0
    }

    open spec fn one_spec() -> i64 {
        1
    }

    open spec fn add_spec(self, rhs: i64) -> i64 {
        i64_specs::wrapping_add(self, rhs)
    }

    open spec fn mul_spec(self, rhs: i64) -> i64 {
        i64_specs::wrapping_mul(self, rhs)
    }

    fn zero() -> i64 {
        0
    }

    fn one() -> i64 {
        1
    }

    fn lane_add(self, rhs: i64) -> i64 {
        self.wrapping_add(rhs)
    }

    fn lane_mul(self, rhs: i64) -> i64 {
        self.wrapping_mul(rhs)
    }

    proof fn add_laws(a: i64, b: i64, c: i64) {
    }

    proof fn mul_laws(a: i64, b: i64, c: i64) {
        let m: int = 0x1_0000_0000_0000_0000;
        // A wrapped product is congruent to the plain one, so wrapping the
        // inner product first changes nothing modulo the range.
        lemma_crop_congruent(a * b, m);
        lemma_crop_congruent(b * c, m);
        let p = a.mul_spec(b) as int;
        let q = b.mul_spec(c) as int;
        lemma_mod_mul_assoc(a as int, b as int, c as int, p, q, m);
        lemma_crop_congruent(p * c, m);
        lemma_crop_congruent(a * q, m);
        lemma_mul_is_commutative(a as int, b as int);
        lemma_crop_congruent(1 * a, m);
    }
}

impl OrdElement for i64 {
    open spec fn min_spec(self, rhs: i64) -> i64 {
        if rhs < self {
            rhs
        } else {
            self
        }
    }

    open spec fn max_spec(self, rhs: i64) -> i64 {
        if rhs > self {
            rhs
        } else {
            self
        }
    }

    fn lane_min(self, rhs: i64) -> i64 {
        if rhs < self {
            rhs
        } else {
            self
        }
    }

    fn lane_max(self, rhs: i64) -> i64 {
        if rhs > self {
            rhs
        } else {
            self
        }
    }

    proof fn min_laws(a: i64, b: i64, c: i64) {
    }

    proof fn max_laws(a: i64, b: i64, c: i64) {
    }
}

impl IntElement for i64 {
    open spec fn no_bits_spec() -> i64 {
        0
    }

    open spec fn all_bits_spec() -> i64 {
        !0i64
    }

    open spec fn and_spec(self, rhs: i64) -> i64 {
        self & rhs
    }

    open spec fn or_spec(self, rhs: i64) -> i64 {
        self | rhs
    }

    open spec fn xor_spec(self, rhs: i64) -> i64 {
        self ^ rhs
    }

    fn no_bits() -> i64 {
        0
    }

    fn all_bits() -> i64 {
        !0i64
    }

    fn lane_and(self, rhs: i64) -> i64 {
        self & rhs
    }

    fn lane_or(self, rhs: i64) -> i64 {
        self | rhs
    }

    fn lane_xor(self, rhs: i64) -> i64 {
        self ^ rhs
    }

    proof fn and_laws(a: i64, b: i64, c: i64) {
        bit_laws_i64(a, b, c);
    }

    proof fn or_laws(a: i64, b: i64, c: i64) {
        bit_laws_i64(a, b, c);
    }

    proof fn xor_laws(a: i64, b: i64, c: i64) {
        bit_laws_i64(a, b, c);
    }
}

/// The bitwise laws of `isize`, all of them facts about bit vectors.
proof fn bit_laws_isize(a: isize, b: isize, c: isize)
    by (bit_vector)
    ensures
        (a & b) & c == a & (b & c),
        a & b == b & a,
        !0isize & a == a,
        (a | b) | c == a | (b | c),
        a | b == b | a,
        0isize | a == a,
        (a ^ b) ^ c == a ^ (b ^ c),
        a ^ b == b ^ a,
        0isize ^ a == a,
{
}

impl MinMaxIdentities for isize {
    open spec fn min_identity_spec() -> isize {
        isize::MAX
    }

    open spec fn max_identity_spec() -> isize {
        isize::MIN
    }

    fn min_identity() -> isize {
        isize::MAX
    }

    fn max_identity() -> isize {
        isize::MIN
    }
}

impl NumElement for isize {
    open spec fn zero_spec() -> isize {
        0
    }

    open spec fn one_spec() -> isize {
        1
    }

    open spec fn add_spec(self, rhs: isize) -> isize {
        isize_specs::wrapping_add(self, rhs)
    }

    open spec fn mul_spec(self, rhs: isize) -> isize {
        isize_specs::wrapping_mul(self, rhs)
    }

    fn zero() -> isize {
        0
    }

    fn one() -> isize {
        1
    }

    fn lane_add(self, rhs: isize) -> isize {
        self.wrapping_add(rhs)
    }

    fn lane_mul(self, rhs: isize) -> isize {
        self.wrapping_mul(rhs)
    }

    proof fn add_laws(a: isize, b: isize, c: isize) {
    }

    proof fn mul_laws(a: isize, b: isize, c: isize) {
        let m: int = usize::MAX - usize::MIN + 1;
        // A wrapped product is congruent to the plain one, so wrapping the
        // inner product first changes nothing modulo the range.
        lemma_crop_congruent(a * b, m);
        lemma_crop_congruent(b * c, m);
        let p = a.mul_spec(b) as int;
        let q = b.mul_spec(c) as int;
        lemma_mod_mul_assoc(a as int, b as int, c as int, p, q, m);
        lemma_crop_congruent(p * c, m);
        lemma_crop_congruent(a * q, m);
        lemma_mul_is_commutative(a as int, b as int);
        lemma_crop_congruent(1 * a, m);
    }
}

impl OrdElement for isize {
    open spec fn min_spec(self, rhs: isize) -> isize {
        if rhs < self {
            rhs
        } else {
            self
        }
    }

    open spec fn max_spec(self, rhs: isize) -> isize {
        if rhs > self {
            rhs
        } else {
            self
        }
    }

    fn lane_min(self, rhs: isize) -> isize {
        if rhs < self {
            rhs
        } else {
            self
        }
    }

    fn lane_max(self, rhs: isize) -> isize {
        if rhs > self {
            rhs
        } else {
            self
        }
    }

    proof fn min_laws(a: isize, b: isize, c: isize) {
    }

    proof fn max_laws(a: isize, b: isize, c: isize) {
    }
}

impl IntElement for isize {
    open spec fn no_bits_spec() -> isize {
        0
    }

    open spec fn all_bits_spec() -> isize {
        !0isize
    }

    open spec fn and_spec(self, rhs: isize) -> isize {
        self & rhs
    }

    open spec fn or_spec(self, rhs: isize) -> isize {
        self | rhs
    }

    open spec fn xor_spec(self, rhs: isize) -> isize {
        self ^ rhs
    }

    fn no_bits() -> isize {
        0
    }

    fn all_bits() -> isize {
        !0isize
    }

    fn lane_and(self, rhs: isize) -> isize {
        self & rhs
    }

    fn lane_or(self, rhs: isize) -> isize {
        self | rhs
    }

    fn lane_xor(self, rhs: isize) -> isize {
        self ^ rhs
    }

    proof fn and_laws(a: isize, b: isize, c: isize) {
        bit_laws_isize(a, b, c);
    }

    proof fn or_laws(a: isize, b: isize, c: isize) {
        bit_laws_isize(a, b, c);
    }

    proof fn xor_laws(a: isize, b: isize, c: isize) {
        bit_laws_isize(a, b, c);
    }
}

} // verus!
