//! Integer conversions that keep the low bits.

use vstd::prelude::*;

verus! {

/// `n` reduced to 32 bits and read as a two's-complement number.
pub open spec fn wrap_i32(n: int) -> int {
    (n + 0x8000_0000) % 0x1_0000_0000 - 0x8000_0000
}

/// `n` reduced to 32 bits and read as a natural number.
pub open spec fn wrap_u32(n: int) -> int {
    n % 0x1_0000_0000
}

/// The low 32 bits of `n`, as a signed number.
pub fn low_i32(n: i64) -> (r: i32)
    ensures
        r == wrap_i32(n as int),
{
    let low: u32 = #[verifier::truncate] (n as u32);
    let r: i32 = #[verifier::truncate] (low as i32);
    proof {
        let up: u64 = #[verifier::truncate] (n as u64);
        assert(n as u32 == up as u32) by (bit_vector)
            requires up == n as u64;
        assert(up as u32 == up % 0x1_0000_0000) by (bit_vector);
        assert(n >= 0 ==> up == n) by (bit_vector)
            requires up == n as u64;
        assert(n < 0 ==> up == n + 0x1_0000_0000_0000_0000) by (bit_vector)
            requires up == n as u64;
        assert(low < 0x8000_0000u32 ==> (low as i32) == low) by (bit_vector);
        assert(low >= 0x8000_0000u32 ==> (low as i32) == low - 0x1_0000_0000) by (bit_vector);
    }
    r
}

/// The low 32 bits of `n`.
pub fn low_u32(n: u64) -> (r: u32)
    ensures
        r == wrap_u32(n as int),
{
    let r: u32 = #[verifier::truncate] (n as u32);
    assert(n as u32 == n % 0x1_0000_0000) by (bit_vector);
    r
}

/// The 32 bits of `n`, as a signed number.
pub fn u32_as_i32(n: u32) -> (r: i32)
    ensures
        r == wrap_i32(n as int),
{
    low_i32(n as i64)
}

/// The 32 bits of `n`, as a natural number.
pub fn i32_as_u32(n: i32) -> (r: u32)
    ensures
        r == wrap_u32(n as int),
{
    let r: u32 = #[verifier::truncate] (n as u32);
    assert(n >= 0 ==> n as u32 == n) by (bit_vector);
    assert(n < 0 ==> n as u32 == n + 0x1_0000_0000) by (bit_vector);
    r
}

// ---------------------------------------------------------------------
// Laws
// ---------------------------------------------------------------------

/// A number that fits stays what it is; any other keeps its low 32 bits.
pub proof fn law_low_bits_are_kept(n: int)
    ensures
        i32::MIN <= wrap_i32(n) <= i32::MAX,
        (wrap_i32(n) - n) % 0x1_0000_0000 == 0,
        i32::MIN <= n <= i32::MAX ==> wrap_i32(n) == n,
        0 <= wrap_u32(n) <= u32::MAX,
        (wrap_u32(n) - n) % 0x1_0000_0000 == 0,
        0 <= n <= u32::MAX ==> wrap_u32(n) == n,
{
}

} // verus!
