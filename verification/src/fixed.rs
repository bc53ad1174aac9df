//! Fixed-point arbitrary-precision arithmetic.
//!
//! A number is a signed big integer read with an implicit binary point: with
//! `digits` limbs of [`BITS_PER_DIGIT`] bits each, a stored integer `v`
//! denotes the real number `v / scale(digits)`.  All operands combined in one
//! computation share the same `digits`.  Addition and subtraction are the
//! exact integer operations; a multiply renormalizes the exact product back
//! to the shared scale by truncating low bits, which is lossy and biased
//! downward by design.

use vstd::prelude::*;
use vstd::arithmetic::power2::{pow2, lemma_pow2_adds, lemma_pow2_pos, lemma2_to64};
use vstd::arithmetic::div_mod::{
    lemma_div_multiples_vanish, lemma_div_pos_is_pos, lemma_fundamental_div_mod, lemma_mod_bound,
};
use vstd::arithmetic::mul::{lemma_mul_is_commutative, lemma_mul_nonnegative};
use num::BigInt;
use crate::bignum::{big_value, big_from_i128, big_mul, big_shl, big_shr};

verus! {

/// Number of bits in one limb of the fixed-point representation.
pub const BITS_PER_DIGIT: u32 = 16;

/// Largest supported limb count; keeps every shift distance small enough for
/// the machine.
pub const MAX_DIGITS: u32 = 4096;

/// Scale factor of a fixed-point number with `digits` limbs: a stored
/// integer `v` denotes the real number `v / scale(digits)`.
pub open spec fn scale(digits: nat) -> int {
    pow2(((digits - 1) * 16) as nat) as int
}

/// The integer stored for a mantissa `m` of [`BITS_PER_DIGIT`] fractional
/// bits: the mantissa placed at its limb offset, so that it denotes the real
/// number `m / 65536`.
pub open spec fn from_mantissa_spec(m: int, digits: nat) -> int {
    m * pow2(((digits - 2) * 16) as nat) as int
}

/// The renormalizing fixed-point product: the exact integer product,
/// truncated (toward minus infinity) back to the shared scale.
pub open spec fn mul_fix(x: int, y: int, digits: nat) -> int {
    (x * y) / scale(digits)
}

pub proof fn lemma_scale_pos(digits: nat)
    ensures
        scale(digits) > 0,
{
    lemma_pow2_pos(((digits - 1) * 16) as nat);
}

/// The fixed-point representation of one is exactly the scale factor.
pub proof fn lemma_one_is_scale(digits: nat)
    requires
        2 <= digits,
    ensures
        from_mantissa_spec(65536, digits) == scale(digits),
{
    lemma2_to64();
    lemma_pow2_adds(16, ((digits - 2) * 16) as nat);
    assert(16 + ((digits - 2) * 16) as nat == ((digits - 1) * 16) as nat);
}

/// Multiplying by the fixed-point one returns the operand unchanged:
/// truncating renormalization never rounds up, and here it loses nothing.
pub proof fn lemma_mul_fix_by_one(x: int, digits: nat)
    requires
        2 <= digits,
    ensures
        mul_fix(x, from_mantissa_spec(65536, digits), digits) == x,
{
    lemma_one_is_scale(digits);
    lemma_scale_pos(digits);
    lemma_mul_is_commutative(x, scale(digits));
    lemma_div_multiples_vanish(x, scale(digits));
}

/// Renormalization truncates: the renormalized product, brought back to the
/// product's scale, never exceeds the exact product, and falls short of it
/// by less than one unit of the scale -- the per-call downward bias.
pub proof fn lemma_mul_fix_truncates(x: int, y: int, digits: nat)
    requires
        2 <= digits,
    ensures
        mul_fix(x, y, digits) * scale(digits) <= x * y,
        x * y - scale(digits) < mul_fix(x, y, digits) * scale(digits),
{
    let s = scale(digits);
    lemma_scale_pos(digits);
    lemma_fundamental_div_mod(x * y, s);
    lemma_mod_bound(x * y, s);
    lemma_mul_is_commutative(mul_fix(x, y, digits), s);
}

/// A fixed-point product of non-negative operands is non-negative.
pub proof fn lemma_mul_fix_nonneg(x: int, y: int, digits: nat)
    requires
        0 <= x,
        0 <= y,
    ensures
        0 <= mul_fix(x, y, digits),
{
    lemma_scale_pos(digits);
    lemma_mul_nonnegative(x, y);
    lemma_div_pos_is_pos(x * y, scale(digits));
}

/// A non-negative mantissa stores a non-negative number.
pub proof fn lemma_from_mantissa_nonneg(m: int, digits: nat)
    requires
        0 <= m,
    ensures
        0 <= from_mantissa_spec(m, digits),
{
    lemma_pow2_pos(((digits - 2) * 16) as nat);
    lemma_mul_nonnegative(m, pow2(((digits - 2) * 16) as nat) as int);
}

/// Builds the fixed-point number denoting `m / 65536`: the mantissa is
/// shifted left onto all limbs below the two highest.  A mantissa whose
/// magnitude needs more room than `digits` provides silently overflows the
/// intended layout; that is a documented limitation, not a detected error.
pub fn from_mantissa(m: i128, digits: u32) -> (r: BigInt)
    requires
        2 <= digits <= MAX_DIGITS,
    ensures
        big_value(r) == from_mantissa_spec(m as int, digits as nat),
{
    let b = big_from_i128(m);
    big_shl(&b, ((digits - 2) * BITS_PER_DIGIT) as usize)
}

/// Fixed-point multiply: the exact product of the stored integers,
/// right-shifted (truncating, not rounding) back to the shared scale.
pub fn mul_bigint(x: &BigInt, y: &BigInt, digits: u32) -> (r: BigInt)
    requires
        2 <= digits <= MAX_DIGITS,
    ensures
        big_value(r) == mul_fix(big_value(*x), big_value(*y), digits as nat),
{
    let p = big_mul(x, y);
    let r = big_shr(&p, ((digits - 1) * BITS_PER_DIGIT) as usize);
    assert(((digits - 1) * BITS_PER_DIGIT) as usize as nat == ((digits as nat - 1) * 16) as nat);
    r
}

} // verus!
