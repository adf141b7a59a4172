use vstd::prelude::*;

verus! {

/// Sign bit of an IEEE-754 double.
pub const SIGN_BIT: u64 = 0x8000_0000_0000_0000;

/// Exponent and mantissa bits of an IEEE-754 double.
pub const MAGNITUDE_MASK: u64 = 0x7FFF_FFFF_FFFF_FFFF;

/// Position of the double with bit pattern `bits` in the IEEE-754 total order:
/// non-negative values by magnitude, negative values below them in reverse.
pub open spec fn key_of_bits(bits: u64) -> int {
    let mag = (bits & MAGNITUDE_MASK) as int;
    if bits & SIGN_BIT == 0 {
        mag
    } else {
        -1 - mag
    }
}

/// Order key of a double given by its bit pattern. Comparing keys as
/// integers compares the doubles in IEEE-754 total order.
pub fn order_key(bits: u64) -> (r: i64)
    ensures
        r as int == key_of_bits(bits),
{
    let mag = bits & MAGNITUDE_MASK;
    assert(mag <= MAGNITUDE_MASK) by (bit_vector)
        requires
            mag == bits & MAGNITUDE_MASK,
    ;
    if bits & SIGN_BIT == 0 {
        mag as i64
    } else {
        -1 - (mag as i64)
    }
}

/// Bit pattern of the double whose order key is `key`.
pub fn bits_of_key(key: i64) -> (r: u64)
    ensures
        key_of_bits(r) == key as int,
{
    if key >= 0 {
        let b = key as u64;
        assert(b & SIGN_BIT == 0 && b & MAGNITUDE_MASK == b) by (bit_vector)
            requires
                b <= MAGNITUDE_MASK,
        ;
        b
    } else {
        let m = (-1 - key) as u64;
        let b = m | SIGN_BIT;
        assert(b & SIGN_BIT != 0 && b & MAGNITUDE_MASK == m) by (bit_vector)
            requires
                m <= MAGNITUDE_MASK,
                b == m | SIGN_BIT,
        ;
        b
    }
}

} // verus!
