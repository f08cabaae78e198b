//! `f32` and `f64` values held as their IEEE 754 bit patterns, compared in
//! the order that `<`, `clamp` and `max` use.

use vstd::prelude::*;

verus! {

/// Whether the bits are those of a NaN: all exponent bits set and a
/// non-zero mantissa, with either sign.
pub open spec fn f32_is_nan(b: u32) -> bool {
    b % 0x8000_0000 > 0x7F80_0000
}

/// The place of a non-NaN `f32` on the number line: its magnitude bits,
/// negated when the sign bit is set. Both zeros have place 0, and `x < y`
/// holds exactly when the place of `x` is below the place of `y`.
pub open spec fn f32_place(b: u32) -> int {
    if b >= 0x8000_0000 {
        -((b % 0x8000_0000) as int)
    } else {
        b as int
    }
}

/// A range that `f32::clamp` accepts: neither end a NaN, and
/// `min <= max`.
pub open spec fn f32_range_ok(min: u32, max: u32) -> bool {
    !f32_is_nan(min) && !f32_is_nan(max) && f32_place(min) <= f32_place(max)
}

/// `f32::clamp`: `min` when the value is below it, `max` when above, the
/// value itself otherwise (a NaN stays a NaN).
pub open spec fn f32_clamp(v: u32, min: u32, max: u32) -> u32 {
    if f32_is_nan(v) {
        v
    } else if f32_place(v) < f32_place(min) {
        min
    } else if f32_place(v) > f32_place(max) {
        max
    } else {
        v
    }
}

/// A clamped value that is not a NaN lies in the range, and clamping it
/// again changes nothing.
pub proof fn lemma_clamp_in_range(v: u32, min: u32, max: u32)
    requires
        f32_range_ok(min, max),
        !f32_is_nan(v),
    ensures
        !f32_is_nan(f32_clamp(v, min, max)),
        f32_place(min) <= f32_place(f32_clamp(v, min, max)) <= f32_place(max),
        f32_clamp(f32_clamp(v, min, max), min, max) == f32_clamp(v, min, max),
{
}

/// The place of a non-NaN `f32`, computed.
fn place(b: u32) -> (r: i64)
    ensures
        r == f32_place(b),
{
    if b >= 0x8000_0000 {
        -((b % 0x8000_0000) as i64)
    } else {
        b as i64
    }
}

/// Clamps the `f32` with bits `v` to the range `[min, max]`.
pub fn f32_clamp_bits(v: u32, min: u32, max: u32) -> (r: u32)
    requires
        f32_range_ok(min, max),
    ensures
        r == f32_clamp(v, min, max),
{
    if v % 0x8000_0000 > 0x7F80_0000 {
        v
    } else if place(v) < place(min) {
        min
    } else if place(v) > place(max) {
        max
    } else {
        v
    }
}

/// Whether `min` and `max` form a range that clamping accepts, computed.
pub fn f32_range_valid(min: u32, max: u32) -> (r: bool)
    ensures
        r == f32_range_ok(min, max),
{
    min % 0x8000_0000 <= 0x7F80_0000 && max % 0x8000_0000 <= 0x7F80_0000 && place(min) <= place(max)
}

/// Whether the `f32` with bits `b` compares `<= 0.0`: a zero of either
/// sign, or negative and not a NaN.
pub open spec fn f32_at_most_zero(b: u32) -> bool {
    !f32_is_nan(b) && f32_place(b) <= 0
}

/// Whether the `f32` with bits `b` compares `<= 0.0`, computed.
pub fn f32_bits_le_zero(b: u32) -> (r: bool)
    ensures
        r == f32_at_most_zero(b),
{
    b % 0x8000_0000 <= 0x7F80_0000 && place(b) <= 0
}

/// `x / 2.0` for an `f32` that is not a NaN: the exponent drops by one;
/// subnormal values and the smallest normal ones have their significand
/// halved instead, rounding a tie to even. The sign stays, and infinities
/// stay infinite.
pub open spec fn f32_half(b: u32) -> u32 {
    let sign: int = if b >= 0x8000_0000 { 0x8000_0000 } else { 0 };
    let mag: int = (b % 0x8000_0000) as int;
    if mag >= 0x7F80_0000 {
        b
    } else if mag >= 0x0100_0000 {
        (b - 0x0080_0000) as u32
    } else if mag % 2 == 0 || (mag / 2) % 2 == 0 {
        (sign + mag / 2) as u32
    } else {
        (sign + mag / 2 + 1) as u32
    }
}

/// Halves an `f32` given by its bits; a NaN gives a NaN.
pub fn f32_half_bits(b: u32) -> (r: u32)
    ensures
        !f32_is_nan(b) ==> r == f32_half(b),
        f32_is_nan(b) ==> f32_is_nan(r),
{
    let sign: u32 = if b >= 0x8000_0000 { 0x8000_0000 } else { 0 };
    let mag = b % 0x8000_0000;
    if mag > 0x7F80_0000 {
        let q = mag | 0x0040_0000;
        assert(q >= mag && q <= 0x7FFF_FFFF) by (bit_vector)
            requires mag > 0x7F80_0000u32, mag <= 0x7FFF_FFFFu32, q == mag | 0x0040_0000u32;
        sign + q
    } else if mag == 0x7F80_0000 {
        b
    } else if mag >= 0x0100_0000 {
        b - 0x0080_0000
    } else if mag % 2 == 0 || (mag / 2) % 2 == 0 {
        sign + mag / 2
    } else {
        sign + mag / 2 + 1
    }
}


/// Whether the bits are those of an `f64` NaN: all exponent bits set and a
/// non-zero mantissa, with either sign.
pub open spec fn f64_is_nan(b: u64) -> bool {
    b % 0x8000_0000_0000_0000 > 0x7FF0_0000_0000_0000
}

/// The place of a non-NaN `f64` on the number line: its magnitude bits,
/// negated when the sign bit is set. Both zeros have place 0, and `x < y`
/// holds exactly when the place of `x` is below the place of `y`.
pub open spec fn f64_place(b: u64) -> int {
    if b >= 0x8000_0000_0000_0000 {
        -((b % 0x8000_0000_0000_0000) as int)
    } else {
        b as int
    }
}

/// A range that `f64::clamp` accepts: neither end a NaN, and
/// `min <= max`.
pub open spec fn f64_range_ok(min: u64, max: u64) -> bool {
    !f64_is_nan(min) && !f64_is_nan(max) && f64_place(min) <= f64_place(max)
}

/// `f64::clamp`: `min` when the value is below it, `max` when above, the
/// value itself otherwise (a NaN stays a NaN).
pub open spec fn f64_clamp(v: u64, min: u64, max: u64) -> u64 {
    if f64_is_nan(v) {
        v
    } else if f64_place(v) < f64_place(min) {
        min
    } else if f64_place(v) > f64_place(max) {
        max
    } else {
        v
    }
}

/// `f64::max` with a floor that is not a NaN and not a zero: the floor
/// when the value is a NaN or below it, the value otherwise.
pub open spec fn f64_at_least(v: u64, floor: u64) -> u64 {
    if f64_is_nan(v) || f64_place(v) <= f64_place(floor) {
        floor
    } else {
        v
    }
}

/// A clamped `f64` that is not a NaN lies in the range, and clamping it
/// again changes nothing.
pub proof fn lemma_f64_clamp_in_range(v: u64, min: u64, max: u64)
    requires
        f64_range_ok(min, max),
        !f64_is_nan(v),
    ensures
        !f64_is_nan(f64_clamp(v, min, max)),
        f64_place(min) <= f64_place(f64_clamp(v, min, max)) <= f64_place(max),
        f64_clamp(f64_clamp(v, min, max), min, max) == f64_clamp(v, min, max),
{
}

/// The place of a non-NaN `f64`, computed.
pub fn place64(b: u64) -> (r: i128)
    ensures
        r == f64_place(b),
{
    if b >= 0x8000_0000_0000_0000 {
        -((b % 0x8000_0000_0000_0000) as i128)
    } else {
        b as i128
    }
}

/// Clamps the `f64` with bits `v` to the range `[min, max]`.
pub fn f64_clamp_bits(v: u64, min: u64, max: u64) -> (r: u64)
    requires
        f64_range_ok(min, max),
    ensures
        r == f64_clamp(v, min, max),
{
    if v % 0x8000_0000_0000_0000 > 0x7FF0_0000_0000_0000 {
        v
    } else if place64(v) < place64(min) {
        min
    } else if place64(v) > place64(max) {
        max
    } else {
        v
    }
}

/// `f64::max(v, floor)` on bits, for a floor that is neither a NaN nor a
/// zero (so that equal values have equal bits).
pub fn f64_max_bits(v: u64, floor: u64) -> (r: u64)
    requires
        !f64_is_nan(floor),
        f64_place(floor) != 0,
    ensures
        r == f64_at_least(v, floor),
{
    if v % 0x8000_0000_0000_0000 > 0x7FF0_0000_0000_0000 || place64(v) <= place64(floor) {
        floor
    } else {
        v
    }
}


/// `x < y` on `f64` values given by their bits: false when either is a
/// NaN.
pub open spec fn f64_lt(x: u64, y: u64) -> bool {
    !f64_is_nan(x) && !f64_is_nan(y) && f64_place(x) < f64_place(y)
}

/// `x < y` on `f64` values given by their bits.
pub fn f64_less(x: u64, y: u64) -> (r: bool)
    ensures
        r == f64_lt(x, y),
{
    x % 0x8000_0000_0000_0000 <= 0x7FF0_0000_0000_0000 && y % 0x8000_0000_0000_0000 <= 0x7FF0_0000_0000_0000
        && place64(x) < place64(y)
}


/// `x <= y` on `f64` values given by their bits: false when either is a
/// NaN.
pub open spec fn f64_le(x: u64, y: u64) -> bool {
    !f64_is_nan(x) && !f64_is_nan(y) && f64_place(x) <= f64_place(y)
}

/// `x <= y` on `f64` values given by their bits.
pub fn f64_at_most(x: u64, y: u64) -> (r: bool)
    ensures
        r == f64_le(x, y),
{
    x % 0x8000_0000_0000_0000 <= 0x7FF0_0000_0000_0000 && y % 0x8000_0000_0000_0000 <= 0x7FF0_0000_0000_0000
        && place64(x) <= place64(y)
}

} // verus!
