//! Ratings are IEEE-754 binary32 values carried as their bit patterns, so
//! that the comparison rules are stated and proved over integers.

use vstd::prelude::*;

verus! {

/// Bit pattern of `0.0`, the rating that an unrated item counts as.
pub const UNRATED: u32 = 0;

/// The sign bit of a binary32 value.
pub const SIGN_BIT: u32 = 0x8000_0000;

/// Every bit but the sign bit.
pub const MAGNITUDE_BITS: u32 = 0x7fff_ffff;

/// Bit pattern of positive infinity: magnitudes above it are NaN.
pub const INFINITY_BITS: u32 = 0x7f80_0000;

/// A binary32 bit pattern that encodes NaN.
pub open spec fn is_nan(bits: u32) -> bool {
    (bits & MAGNITUDE_BITS) > INFINITY_BITS
}

/// The position of a non-NaN value on the number line: binary32 magnitudes
/// grow with their bit patterns, negative values mirror positive ones, and
/// both zeros sit at zero.
pub open spec fn order_key(bits: u32) -> int {
    if bits & SIGN_BIT != 0 {
        -((bits & MAGNITUDE_BITS) as int)
    } else {
        (bits & MAGNITUDE_BITS) as int
    }
}

/// `value >= threshold` on the binary32 values that the bit patterns encode
/// (false as soon as either is NaN).
pub open spec fn at_least(value: u32, threshold: u32) -> bool {
    !is_nan(value) && !is_nan(threshold) && order_key(value) >= order_key(threshold)
}

/// The rating an item is filtered by: its own, or `0.0` when it has none.
pub open spec fn effective_rating(rating: Option<u32>) -> u32 {
    match rating {
        Some(bits) => bits,
        None => UNRATED,
    }
}

/// Decides `value >= threshold` for two binary32 bit patterns.
pub fn rating_at_least(value: u32, threshold: u32) -> (r: bool)
    ensures
        r == at_least(value, threshold),
{
    if (value & MAGNITUDE_BITS) > INFINITY_BITS || (threshold & MAGNITUDE_BITS) > INFINITY_BITS {
        return false;
    }
    let v: i64 = if value & SIGN_BIT != 0 {
        -((value & MAGNITUDE_BITS) as i64)
    } else {
        (value & MAGNITUDE_BITS) as i64
    };
    let t: i64 = if threshold & SIGN_BIT != 0 {
        -((threshold & MAGNITUDE_BITS) as i64)
    } else {
        (threshold & MAGNITUDE_BITS) as i64
    };
    v >= t
}

} // verus!
