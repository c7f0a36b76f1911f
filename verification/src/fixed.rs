//! Integer arithmetic shared by the fixed-point pipelines.
//!
//! The spec functions say, over mathematical integers, what narrowing casts,
//! arithmetic right shifts and truncating division compute.

use vstd::prelude::*;

verus! {

/// The value of the low 32 bits of `x`, read as a signed number.
pub open spec fn wrap_i32(x: int) -> i32 {
    let m = x % 0x1_0000_0000;
    (if m >= 0x8000_0000 { m - 0x1_0000_0000 } else { m }) as i32
}

/// The value of the low 16 bits of `x`, read as a signed number.
pub open spec fn wrap_i16(x: int) -> i16 {
    let m = x % 0x1_0000;
    (if m >= 0x8000 { m - 0x1_0000 } else { m }) as i16
}

/// Division rounding towards zero.
pub open spec fn tdiv(a: int, b: int) -> int {
    if a >= 0 { a / b } else { -((-a) / b) }
}

/// The larger of two numbers.
pub open spec fn max(a: int, b: int) -> int {
    if a >= b { a } else { b }
}

/// The smaller of two numbers.
pub open spec fn min(a: int, b: int) -> int {
    if a <= b { a } else { b }
}

/// The absolute value of a number.
pub open spec fn abs(a: int) -> int {
    if a >= 0 { a } else { -a }
}

/// `x` moved into `lo..=hi`.
pub open spec fn clamp(x: int, lo: int, hi: int) -> int {
    if x < lo { lo } else if x > hi { hi } else { x }
}

/// Whether the bit of `x` that has the given weight (a power of two) is set.
pub open spec fn bit(x: int, weight: int) -> bool {
    (x / weight) % 2 == 1
}

/// The 10-bit two's-complement field in the low bits of `word`.
pub open spec fn sign10(word: u32) -> int {
    let m = word % 0x400;
    if m >= 0x200 { m - 0x400 } else { m as int }
}

/// The signed 16-bit value in the low half of `word`.
pub open spec fn low_half(word: u32) -> i16 {
    wrap_i16(word as int)
}

/// The signed 16-bit value in the high half of `word`.
pub open spec fn high_half(word: u32) -> i16 {
    wrap_i16((word / 0x1_0000) as int)
}

proof fn lemma_wide_i32(x: i128) by (bit_vector)
    ensures
        (x as i32) == (if x % 0x1_0000_0000 >= 0x8000_0000 {
            x % 0x1_0000_0000 - 0x1_0000_0000
        } else {
            (x % 0x1_0000_0000) as int
        }),
{
}

proof fn lemma_wide_i16(x: i128) by (bit_vector)
    ensures
        (x as i16) == (if x % 0x1_0000 >= 0x8000 {
            x % 0x1_0000 - 0x1_0000
        } else {
            (x % 0x1_0000) as int
        }),
{
}

proof fn lemma_shr4(x: i64) by (bit_vector)
    ensures
        x >> 4 == x / 16,
{
}

proof fn lemma_shr8(x: i64) by (bit_vector)
    ensures
        x >> 8 == x / 256,
{
}

proof fn lemma_shr9(x: i64) by (bit_vector)
    ensures
        x >> 9 == x / 512,
{
}

proof fn lemma_shr12(x: i128) by (bit_vector)
    ensures
        x >> 12 == x / 4096,
{
}

proof fn lemma_shr17(x: i128) by (bit_vector)
    ensures
        x >> 17 == x / 0x2_0000,
{
}

proof fn lemma_shr20(x: i128) by (bit_vector)
    ensures
        x >> 20 == x / 0x10_0000,
{
}

/// Every `u32` word read as a signed 32-bit number.
pub fn word_as_i32(word: u32) -> (r: i32)
    ensures
        r == wrap_i32(word as int),
{
    proof {
        lemma_wide_i32(word as i128);
    }
    word as i32
}

/// The 32-bit word that represents a signed number.
pub open spec fn word_of(x: i32) -> u32 {
    (x as int % 0x1_0000_0000) as u32
}

/// The halfword that represents a signed number.
pub open spec fn halfword_of(x: i16) -> u16 {
    (x as int % 0x1_0000) as u16
}

/// The word that represents a signed number.
pub fn i32_as_word(x: i32) -> (r: u32)
    ensures
        r == word_of(x),
{
    if x >= 0 {
        x as u32
    } else {
        (x as i64 + 0x1_0000_0000) as u32
    }
}

/// The halfword that represents a signed number.
pub fn i16_as_halfword(x: i16) -> (r: u16)
    ensures
        r == halfword_of(x),
{
    if x >= 0 {
        x as u16
    } else {
        (x as i32 + 0x1_0000) as u16
    }
}

/// The low 32 bits of `x`.
pub fn narrow_i32(x: i128) -> (r: i32)
    ensures
        r == wrap_i32(x as int),
{
    proof {
        lemma_wide_i32(x);
    }
    x as i32
}

/// The low 16 bits of `x`.
pub fn narrow_i16(x: i128) -> (r: i16)
    ensures
        r == wrap_i16(x as int),
{
    proof {
        lemma_wide_i16(x);
    }
    x as i16
}

/// A number that already fits keeps its value under [`wrap_i32`].
pub proof fn lemma_wrap_i32_fits(x: int)
    requires
        i32::MIN <= x <= i32::MAX,
    ensures
        wrap_i32(x) == x,
{
}

/// `x / 16`, rounded down.
pub fn shr4(x: i64) -> (r: i64)
    ensures
        r == x as int / 16,
{
    proof {
        lemma_shr4(x);
    }
    x >> 4
}

/// `x / 256`, rounded down.
pub fn shr8(x: i64) -> (r: i64)
    ensures
        r == x as int / 256,
{
    proof {
        lemma_shr8(x);
    }
    x >> 8
}

/// `x / 512`, rounded down.
pub fn shr9(x: i64) -> (r: i64)
    ensures
        r == x as int / 512,
{
    proof {
        lemma_shr9(x);
    }
    x >> 9
}

/// `x / 4096`, rounded down.
pub fn shr12(x: i128) -> (r: i128)
    ensures
        r == x as int / 4096,
{
    proof {
        lemma_shr12(x);
    }
    x >> 12
}

/// `x / 2^17`, rounded down.
pub fn shr17(x: i128) -> (r: i128)
    ensures
        r == x as int / 0x2_0000,
{
    proof {
        lemma_shr17(x);
    }
    x >> 17
}

/// `x / 2^20`, rounded down.
pub fn shr20(x: i128) -> (r: i128)
    ensures
        r == x as int / 0x10_0000,
{
    proof {
        lemma_shr20(x);
    }
    x >> 20
}

/// Sign-extend the low 10 bits of `word`.
pub fn sign_extend10(word: u32) -> (r: i32)
    ensures
        r == sign10(word),
        -512 <= r <= 511,
{
    let m: u32 = word % 0x400;
    if m >= 0x200 {
        m as i32 - 0x400
    } else {
        m as i32
    }
}

/// Sign-extend the three 10-bit fields at bits 0, 10 and 20 of `word`.
pub fn sign_extend10x3(word: u32) -> (r: (i32, i32, i32))
    ensures
        r.0 == sign10(word),
        r.1 == sign10(word / 0x400),
        r.2 == sign10(word / 0x10_0000),
        -512 <= r.0 <= 511,
        -512 <= r.1 <= 511,
        -512 <= r.2 <= 511,
{
    (sign_extend10(word), sign_extend10(word / 0x400), sign_extend10(word / 0x10_0000))
}

/// The two signed halves of `word`, low half first.
pub fn signed_halves(word: u32) -> (r: (i16, i16))
    ensures
        r.0 == low_half(word),
        r.1 == high_half(word),
{
    (narrow_i16(word as i128), narrow_i16((word / 0x1_0000) as i128))
}

/// Test the bit of `x` that has the given weight.
pub fn has_bit(x: u32, weight: u32) -> (r: bool)
    requires
        weight > 0,
    ensures
        r == bit(x as int, weight as int),
{
    (x / weight) % 2 == 1
}

/// Clamp a signed value into `lo..=hi`.
pub fn clamp_i64(x: i64, lo: i64, hi: i64) -> (r: i64)
    requires
        lo <= hi,
    ensures
        r == clamp(x as int, lo as int, hi as int),
{
    if x < lo {
        lo
    } else if x > hi {
        hi
    } else {
        x
    }
}

/// The magnitude of a quotient is at most that of the dividend.
proof fn lemma_quotient_shrinks(a: int, b: int)
    requires
        a >= 0,
        b != 0,
    ensures
        -a <= a / b <= a,
        b > 0 ==> a / b >= 0,
{
    if b > 0 {
        assert(0 <= a / b <= a) by (nonlinear_arith)
            requires
                a >= 0,
                b > 0,
        ;
    } else {
        vstd::arithmetic::div_mod::lemma_fundamental_div_mod(a, b);
        let q = a / b;
        let r = a % b;
        assert(0 <= r < -b);
        assert(-a <= q <= 0) by (nonlinear_arith)
            requires
                a == b * q + r,
                0 <= r < -b,
                b < 0,
                a >= 0,
        ;
    }
}

/// Division rounding towards zero.
pub fn div_trunc(a: i64, b: i64) -> (r: i64)
    requires
        b != 0,
        a > i64::MIN,
    ensures
        r == tdiv(a as int, b as int),
{
    proof {
        lemma_quotient_shrinks(abs(a as int), b as int);
    }
    a / b
}

/// Division of a wide dividend, rounding towards zero.
pub fn div_trunc_wide(a: i128, b: i64) -> (r: i128)
    requires
        b != 0,
        a > i128::MIN,
    ensures
        r == tdiv(a as int, b as int),
{
    proof {
        lemma_quotient_shrinks(abs(a as int), b as int);
    }
    a / b as i128
}

/// The product of two 32-bit numbers stays within 2^62.
pub proof fn lemma_i32_product(a: i32, b: i32)
    ensures
        -0x4000_0000_0000_0000 <= a * b <= 0x4000_0000_0000_0000,
{
    assert(-0x4000_0000_0000_0000 <= a * b <= 0x4000_0000_0000_0000) by (nonlinear_arith)
        requires
            -0x8000_0000 <= a <= 0x8000_0000,
            -0x8000_0000 <= b <= 0x8000_0000,
    ;
}

/// Truncating division of a value within `-m*d..=m*d` lands in `-m..=m`.
pub proof fn lemma_tdiv_bound(a: int, d: int, m: int)
    requires
        d > 0,
        -(m * d) <= a <= m * d,
    ensures
        -m <= tdiv(a, d) <= m,
{
    if a >= 0 {
        assert(0 <= a / d <= m) by (nonlinear_arith)
            requires
                0 <= a <= m * d,
                d > 0,
        ;
    } else {
        assert(0 <= (-a) / d <= m) by (nonlinear_arith)
            requires
                0 <= -a <= m * d,
                d > 0,
        ;
    }
}

/// Truncating division by a positive number preserves order.
pub proof fn lemma_tdiv_monotone(a: int, b: int, d: int)
    requires
        d > 0,
        a <= b,
    ensures
        tdiv(a, d) <= tdiv(b, d),
{
    if a >= 0 {
        assert(a / d <= b / d) by (nonlinear_arith)
            requires
                a <= b,
                d > 0,
        ;
    } else if b < 0 {
        assert((-b) / d <= (-a) / d) by (nonlinear_arith)
            requires
                a <= b,
                d > 0,
        ;
    } else {
        assert((-a) / d >= 0) by (nonlinear_arith)
            requires
                a < 0,
                d > 0,
        ;
        assert(b / d >= 0) by (nonlinear_arith)
            requires
                b >= 0,
                d > 0,
        ;
    }
}

/// A number with one bit set.
pub open spec fn with_bit(x: int, weight: int) -> int {
    if bit(x, weight) { x } else { x + weight }
}

/// A number with one bit cleared.
pub open spec fn without_bit(x: int, weight: int) -> int {
    if bit(x, weight) { x - weight } else { x }
}

/// Set one bit of a register.
pub fn set_bit(x: u32, weight: u32) -> (r: u32)
    requires
        weight > 0,
        with_bit(x as int, weight as int) <= u32::MAX,
    ensures
        r == with_bit(x as int, weight as int),
{
    if has_bit(x, weight) {
        x
    } else {
        x + weight
    }
}

/// Clear one bit of a register.
pub fn clear_bit(x: u32, weight: u32) -> (r: u32)
    requires
        weight > 0,
        without_bit(x as int, weight as int) >= 0,
    ensures
        r == without_bit(x as int, weight as int),
{
    if has_bit(x, weight) {
        x - weight
    } else {
        x
    }
}

/// A number whose lowest field is `lo`, of `m` values, and whose rest is `hi`.
pub proof fn lemma_low_field(x: int, lo: int, hi: int, m: int)
    requires
        0 <= lo < m,
        x == lo + m * hi,
    ensures
        x % m == lo,
        x / m == hi,
{
    assert(x == hi * m + lo) by (nonlinear_arith)
        requires
            x == lo + m * hi,
    ;
    vstd::arithmetic::div_mod::lemma_fundamental_div_mod_converse(x, m, hi, lo);
}

/// A 32-bit number wraps around every 2^32: what fits in it comes back from any number
/// of turns.
pub proof fn law_wrap_i32(x: int, turns: int)
    requires
        i32::MIN <= x <= i32::MAX,
    ensures
        wrap_i32(x + turns * 0x1_0000_0000) == x,
{
    vstd::arithmetic::div_mod::lemma_mod_multiples_vanish(turns, x, 0x1_0000_0000);
    assert(0x1_0000_0000 * turns + x == x + turns * 0x1_0000_0000);
}

/// A 16-bit number wraps around every 2^16.
pub proof fn law_wrap_i16(x: int, turns: int)
    requires
        i16::MIN <= x <= i16::MAX,
    ensures
        wrap_i16(x + turns * 0x1_0000) == x,
{
    vstd::arithmetic::div_mod::lemma_mod_multiples_vanish(turns, x, 0x1_0000);
    assert(0x1_0000 * turns + x == x + turns * 0x1_0000);
}

/// Division rounds towards zero: the remainder is smaller than the divisor and has the
/// sign of what is divided, and turning the sign turns the result.
pub proof fn law_division_rounds_to_zero(a: int, b: int)
    requires
        b > 0,
    ensures
        a >= 0 ==> 0 <= a - b * tdiv(a, b) < b,
        a <= 0 ==> 0 <= b * tdiv(a, b) - a < b,
        tdiv(-a, b) == -tdiv(a, b),
{
    let m = abs(a);
    vstd::arithmetic::div_mod::lemma_fundamental_div_mod(m, b);
    vstd::arithmetic::div_mod::lemma_mod_bound(m, b);
    let q = m / b;
    assert(b * (-q) == -(b * q)) by (nonlinear_arith);
    if a == 0 {
        vstd::arithmetic::div_mod::lemma_basic_div(0, b);
    }
}

/// A signed number and the word that represents it are each other's reading.
pub proof fn law_words_of_numbers(x: i32, y: i16, w: u32)
    ensures
        wrap_i32(word_of(x) as int) == x,
        word_of(wrap_i32(w as int)) == w,
        wrap_i16(halfword_of(y) as int) == y,
        x >= 0 ==> word_of(x) == x,
        y >= 0 ==> halfword_of(y) == y,
{
}

} // verus!
