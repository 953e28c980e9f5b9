//! Integer keys that order IEEE-754 binary64 values by their numeric value.
//!
//! The library never handles floating-point values itself. A caller turns a
//! time or a frequency into its bit pattern and then into a key with
//! [`order_key`]; every comparison the library makes on such quantities is a
//! comparison of keys.
use vstd::prelude::*;

verus! {

/// Sign bit of a binary64 bit pattern.
pub const SIGN_BIT: u64 = 0x8000_0000_0000_0000;

/// Exponent and mantissa bits of a binary64 bit pattern.
pub const MAGNITUDE_MASK: u64 = 0x7fff_ffff_ffff_ffff;

/// The magnitude bits of a pattern, negated when its sign bit is set.
///
/// Every binary64 value that is not a NaN is ordered by this number: the
/// magnitude bits grow with the absolute value, and `-0` and `+0` both give 0.
pub open spec fn signed_magnitude(bits: u64) -> int {
    if bits & SIGN_BIT == 0 {
        (bits & MAGNITUDE_MASK) as int
    } else {
        -((bits & MAGNITUDE_MASK) as int)
    }
}

/// The key of a bit pattern: its signed magnitude, shifted to be non-negative.
pub open spec fn key_value(bits: u64) -> int {
    SIGN_BIT as int + signed_magnitude(bits)
}

/// Key of the binary64 value with bit pattern `bits`.
///
/// Two values that are not NaN compare as their keys do, and `-0.0` and
/// `0.0` get the same key.
pub fn order_key(bits: u64) -> (r: u64)
    ensures
        r as int == key_value(bits),
{
    let magnitude = bits & MAGNITUDE_MASK;
    proof {
        assert(magnitude <= MAGNITUDE_MASK) by (bit_vector)
            requires
                magnitude == bits & MAGNITUDE_MASK,
        ;
    }
    if bits & SIGN_BIT == 0 {
        SIGN_BIT + magnitude
    } else {
        SIGN_BIT - magnitude
    }
}

} // verus!
