//! Number conventions of the instruction set: little-endian immediates,
//! two's-complement registers, wrapping arithmetic, truncating division.

use vstd::prelude::*;

verus! {

/// The number of values that sixty-four bits hold.
pub open spec fn word_range() -> int {
    0x1_0000_0000_0000_0000
}

/// The number of values that `count` bytes hold.
pub open spec fn byte_range(count: nat) -> nat
    decreases count,
{
    if count == 0 {
        1
    } else {
        256 * byte_range((count - 1) as nat)
    }
}

/// The unsigned number that `bytes` spell, least significant byte first.
pub open spec fn le_value(bytes: Seq<u8>) -> nat
    decreases bytes.len(),
{
    if bytes.len() == 0 {
        0
    } else {
        bytes[0] as nat + 256 * le_value(bytes.skip(1))
    }
}

/// The signed number with the same sixty-four bits as `value`.
pub open spec fn as_signed(value: u64) -> i64 {
    if value <= i64::MAX {
        value as i64
    } else {
        (value - word_range()) as i64
    }
}

/// The register value with every bit of `value` flipped: in two's
/// complement, one less than its negation.
pub open spec fn flipped(value: i64) -> i64 {
    (-value - 1) as i64
}

/// Whether `exact` is the value of some register.
pub open spec fn fits(exact: int) -> bool {
    i64::MIN <= exact <= i64::MAX
}

/// The register value that differs from `exact` by a multiple of 2^64:
/// `exact` itself where it fits, its two's-complement wraparound otherwise.
pub open spec fn wrap(exact: int) -> i64 {
    let low = exact % word_range();
    if low > i64::MAX {
        (low - word_range()) as i64
    } else {
        low as i64
    }
}

/// The quotient of `dividend` by `divisor` rounded toward zero, for a
/// divisor other than zero.
pub open spec fn quotient(dividend: int, divisor: int) -> int {
    if dividend >= 0 && divisor > 0 {
        dividend / divisor
    } else if dividend >= 0 {
        -(dividend / (-divisor))
    } else if divisor > 0 {
        -((-dividend) / divisor)
    } else {
        (-dividend) / (-divisor)
    }
}

/// `count` bytes hold fewer than `byte_range(count)` values.
pub proof fn lemma_le_value_bound(bytes: Seq<u8>)
    ensures
        le_value(bytes) < byte_range(bytes.len()),
    decreases bytes.len(),
{
    if bytes.len() > 0 {
        lemma_le_value_bound(bytes.skip(1));
    }
}

/// Eight bytes are one word, and fewer bytes stay below the sign bit.
pub proof fn lemma_byte_range_values()
    ensures
        byte_range(0) == 1,
        byte_range(1) == 0x100,
        byte_range(2) == 0x1_0000,
        byte_range(3) == 0x100_0000,
        byte_range(4) == 0x1_0000_0000,
        byte_range(5) == 0x100_0000_0000,
        byte_range(6) == 0x1_0000_0000_0000,
        byte_range(7) == 0x100_0000_0000_0000,
        byte_range(8) == word_range(),
{
    reveal_with_fuel(byte_range, 9);
}

/// Flipping every bit of a register negates it and subtracts one.
pub proof fn lemma_flipped_is_complement(value: i64)
    ensures
        flipped(value) == !value,
{
    assert(!value == -value - 1) by (bit_vector);
}

/// A value that fits a register wraps to itself.
pub proof fn lemma_wrap_fits(exact: int)
    requires
        fits(exact),
    ensures
        wrap(exact) == exact,
{
    if exact < 0 {
        assert((exact + word_range()) % word_range() == exact % word_range()) by {
            vstd::arithmetic::div_mod::lemma_mod_add_multiples_vanish(exact, word_range());
        }
        assert(exact % word_range() == exact + word_range());
    }
}

/// Reads `count` bytes of `bytes` from `start` on as one unsigned number,
/// least significant byte first.
pub fn read_le(bytes: &Vec<u8>, start: usize, count: usize) -> (value: u64)
    requires
        count <= 8,
        start + count <= bytes.len(),
    ensures
        value == le_value(bytes@.subrange(start as int, start + count)),
{
    let mut value: u64 = 0;
    let mut left: usize = count;
    while left > 0
        invariant
            left <= count <= 8,
            start + count <= bytes.len(),
            value == le_value(bytes@.subrange(start + left, start + count)),
        decreases left,
    {
        let ghost tail = bytes@.subrange(start + left, start + count);
        let ghost whole = bytes@.subrange(start + left - 1, start + count);
        proof {
            lemma_le_value_bound(tail);
            lemma_byte_range_values();
            assert(tail.len() <= 7);
            assert(byte_range(tail.len()) <= byte_range(7)) by {
                reveal_with_fuel(byte_range, 9);
            }
            assert(whole.skip(1) =~= tail);
            assert(whole[0] == bytes@[start + left - 1]);
        }
        left = left - 1;
        value = value * 256 + bytes[start + left] as u64;
    }
    value
}

/// The signed number with the same bits as `value`: what a register holds
/// once an unsigned word is stored in it.
pub fn to_signed(value: u64) -> (signed: i64)
    ensures
        signed == as_signed(value),
        value <= i64::MAX ==> signed == value,
{
    if value <= 0x7fff_ffff_ffff_ffff {
        value as i64
    } else {
        (value - 0x8000_0000_0000_0000) as i64 + i64::MIN
    }
}

/// The register value with every bit of `value` flipped.
pub fn flip(value: i64) -> (result: i64)
    ensures
        result == flipped(value),
        result == !value,
{
    proof {
        lemma_flipped_is_complement(value);
    }
    !value
}

/// The sum of two registers, wrapped, and whether the exact sum did not fit.
pub fn wrapping_sum(left: i64, right: i64) -> (result: (i64, bool))
    ensures
        result.0 == wrap(left + right),
        result.1 == !fits(left + right),
{
    match left.checked_add(right) {
        Some(sum) => {
            proof {
                lemma_wrap_fits(left + right);
            }
            (sum, false)
        },
        None => (left.wrapping_add(right), true),
    }
}

/// The difference of two registers, wrapped, and whether the exact
/// difference did not fit.
pub fn wrapping_difference(left: i64, right: i64) -> (result: (i64, bool))
    ensures
        result.0 == wrap(left - right),
        result.1 == !fits(left - right),
{
    match left.checked_sub(right) {
        Some(difference) => {
            proof {
                lemma_wrap_fits(left - right);
            }
            (difference, false)
        },
        None => (left.wrapping_sub(right), true),
    }
}

/// The product of two registers, wrapped, and whether the exact product
/// did not fit.
pub fn wrapping_product(left: i64, right: i64) -> (result: (i64, bool))
    ensures
        result.0 == wrap(left * right),
        result.1 == !fits(left * right),
{
    match left.checked_mul(right) {
        Some(product) => {
            proof {
                lemma_wrap_fits(left * right);
            }
            (product, false)
        },
        None => (left.wrapping_mul(right), true),
    }
}

/// The quotient of two registers rounded toward zero, wrapped, and whether
/// the exact quotient did not fit; `None` for a divisor of zero.
pub fn wrapping_quotient(dividend: i64, divisor: i64) -> (result: Option<(i64, bool)>)
    ensures
        divisor == 0 <==> result is None,
        divisor != 0 ==> result == Some(
            (wrap(quotient(dividend as int, divisor as int)), !fits(
                quotient(dividend as int, divisor as int),
            )),
        ),
        divisor != 0 ==> (!fits(quotient(dividend as int, divisor as int)) <==> dividend
            == i64::MIN && divisor == -1),
{
    if divisor == 0 {
        None
    } else if dividend == i64::MIN && divisor == -1 {
        assert(quotient(dividend as int, divisor as int) == 0x8000_0000_0000_0000);
        Some((i64::MIN, true))
    } else {
        proof {
            lemma_quotient_fits(dividend, divisor);
            lemma_wrap_fits(quotient(dividend as int, divisor as int));
        }
        match dividend.checked_div(divisor) {
            Some(value) => Some((value, false)),
            None => Some((0, false)),
        }
    }
}

/// Every quotient of two registers fits a register, but that of the least
/// register by minus one.
pub proof fn lemma_quotient_fits(dividend: i64, divisor: i64)
    requires
        divisor != 0,
        !(dividend == i64::MIN && divisor == -1),
    ensures
        fits(quotient(dividend as int, divisor as int)),
{
    let x = dividend as int;
    let d = divisor as int;
    if x >= 0 && d > 0 {
        assert(0 <= x / d <= x) by (nonlinear_arith)
            requires
                x >= 0,
                d > 0,
        ;
    } else if x >= 0 {
        assert(0 <= x / (-d) <= x) by (nonlinear_arith)
            requires
                x >= 0,
                -d > 0,
        ;
    } else if d > 0 {
        assert(0 <= (-x) / d <= -x) by (nonlinear_arith)
            requires
                -x >= 0,
                d > 0,
        ;
    } else {
        if d == -1 {
            assert((-x) / 1 == -x);
        } else {
            assert(0 <= (-x) / (-d) <= (-x) / 2) by (nonlinear_arith)
                requires
                    -x >= 0,
                    -d >= 2,
            ;
        }
    }
}

} // verus!
