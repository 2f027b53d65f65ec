//! The low bits of numbers.
use vstd::prelude::*;

verus! {

/// The low 16 bits of `n`.
pub open spec fn low16(n: int) -> int {
    n % 0x1_0000
}

/// The low 16 bits of `n`, read as a signed number.
pub open spec fn low16_signed(n: int) -> int {
    if low16(n) < 0x8000 {
        low16(n)
    } else {
        low16(n) - 0x1_0000
    }
}

/// The low 16 bits of `n`.
pub fn low_u16(n: i64) -> (low: u16)
    ensures
        low == low16(n as int),
{
    let low: u16 = n as u16;
    proof {
        let bits: u64 = n as u64;
        assert(low == bits % 0x1_0000u64) by (bit_vector)
            requires
                low == n as u16,
                bits == n as u64,
        ;
        assert(n >= 0 ==> bits == n) by (bit_vector)
            requires
                bits == n as u64,
        ;
        assert(n < 0 ==> bits == n + 0x1_0000_0000_0000_0000) by (bit_vector)
            requires
                bits == n as u64,
        ;
    }
    low
}

/// The low 16 bits of `n`, read as a signed number.
pub fn low_i16(n: i64) -> (low: i16)
    ensures
        low == low16_signed(n as int),
{
    let unsigned: u16 = low_u16(n);
    let low: i16 = unsigned as i16;
    proof {
        assert(unsigned < 0x8000 ==> low == unsigned) by (bit_vector)
            requires
                low == unsigned as i16,
        ;
        assert(unsigned >= 0x8000 ==> low == unsigned - 0x1_0000) by (bit_vector)
            requires
                low == unsigned as i16,
        ;
    }
    low
}

/// The low 16 bits of `n`.
pub fn low_u16_of(n: u64) -> (low: u16)
    ensures
        low == low16(n as int),
{
    let low: u16 = n as u16;
    assert(low == n % 0x1_0000u64) by (bit_vector)
        requires
            low == n as u16,
    ;
    low
}

/// The low 16 bits of a number are between 0 and 2^16 and differ from it by a
/// multiple of 2^16; read as signed they are between -2^15 and 2^15 and do so
/// too. A number in the range is its own low bits.
pub proof fn law_low_bits_are_congruent(n: int)
    ensures
        0 <= low16(n) < 0x1_0000,
        (n - low16(n)) % 0x1_0000 == 0,
        0 <= n < 0x1_0000 ==> low16(n) == n,
        -0x8000 <= low16_signed(n) < 0x8000,
        (n - low16_signed(n)) % 0x1_0000 == 0,
        -0x8000 <= n < 0x8000 ==> low16_signed(n) == n,
{
}

} // verus!
