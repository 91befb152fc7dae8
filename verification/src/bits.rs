//! Single bits of a byte, by way of the `bit_field` crate.

use bit_field::BitField;
use vstd::prelude::*;

verus! {

/// The byte `value` with bit `bit` set or cleared. Bit 0 is the least
/// significant.
pub open spec fn with_bit(value: u8, bit: usize, on: bool) -> u8 {
    if on {
        value | (1u8 << bit)
    } else {
        value & !(1u8 << bit)
    }
}

/// Whether bit `bit` of the byte `value` is set.
pub open spec fn has_bit(value: u8, bit: usize) -> bool {
    value & (1u8 << bit) != 0
}

/// Trusted: `BitField::set_bit` of the `bit_field` crate on a `u8`, which
/// panics for a bit beyond the seventh, and else sets or clears that bit
/// and leaves the others.
#[verifier::external_body]
pub(crate) fn set_bit(value: u8, bit: usize, on: bool) -> (changed: u8)
    requires
        bit < 8,
    ensures
        changed == with_bit(value, bit, on),
{
    let mut changed = value;
    changed.set_bit(bit, on);
    changed
}

/// Trusted: `BitField::get_bit` of the `bit_field` crate on a `u8`, which
/// panics for a bit beyond the seventh, and else says whether that bit is
/// set.
#[verifier::external_body]
pub(crate) fn get_bit(value: u8, bit: usize) -> (set: bool)
    requires
        bit < 8,
    ensures
        set == has_bit(value, bit),
{
    value.get_bit(bit)
}

} // verus!
