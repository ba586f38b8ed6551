//! Single bits of a register.
use vstd::prelude::*;

verus! {

/// Bit `index` of `value`.
pub open spec fn bit(value: u32, index: u32) -> bool {
    value & (1u32 << index) != 0
}

/// `value` with bit `index` set or cleared.
pub open spec fn with_bit(value: u32, index: u32, on: bool) -> u32 {
    if on {
        value | (1u32 << index)
    } else {
        value & !(1u32 << index)
    }
}

/// Bit `index` is the binary digit of `value` at that place.
pub proof fn law_bit_is_binary_digit(value: u32, index: u32)
    by (bit_vector)
    requires
        index < 32,
    ensures
        bit(value, index) == ((value >> index) % 2 == 1),
{
}

/// The digits of the status registers that the driver looks at.
pub(crate) proof fn lemma_digits(value: u32)
    by (bit_vector)
    ensures
        bit(value, 12) == (value / 0x1000 % 2 == 1),
        bit(value, 11) == (value / 0x800 % 2 == 1),
        bit(value, 10) == (value / 0x400 % 2 == 1),
        bit(value, 7) == (value / 0x80 % 2 == 1),
        bit(value, 4) == (value / 0x10 % 2 == 1),
        bit(value, 3) == (value / 8 % 2 == 1),
        bit(value, 1) == (value / 2 % 2 == 1),
        bit(value, 0) == (value % 2 == 1),
{
}

/// Writing one bit sets that bit to what was written and leaves the others as
/// they were.
pub proof fn law_with_bit_touches_one_bit(value: u32, index: u32, on: bool, other: u32)
    by (bit_vector)
    requires
        index < 32,
        other < 32,
    ensures
        bit(with_bit(value, index, on), other) == (if other == index {
            on
        } else {
            bit(value, other)
        }),
{
}

/// Reads bit `index` of `value`.
pub fn test_bit(value: u32, index: u32) -> (on: bool)
    requires
        index < 32,
    ensures
        on == bit(value, index),
{
    value & (1u32 << index) != 0
}

/// Sets or clears bit `index` of `value`.
pub fn assign_bit(value: u32, index: u32, on: bool) -> (next: u32)
    requires
        index < 32,
    ensures
        next == with_bit(value, index, on),
{
    if on {
        value | (1u32 << index)
    } else {
        value & !(1u32 << index)
    }
}

} // verus!
