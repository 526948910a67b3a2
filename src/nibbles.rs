use vstd::prelude::*;

verus! {

/// Joins three nibbles into a 12-bit address, most significant first.
pub fn u16_from_nibbles_3(n1: u8, n2: u8, n3: u8) -> (r: u16)
    requires
        n1 < 16,
        n2 < 16,
        n3 < 16,
    ensures
        r == n1 * 256 + n2 * 16 + n3,
        r < 4096,
{
    (n1 as u16) * 256 + (n2 as u16) * 16 + n3 as u16
}

/// Joins two nibbles into one byte, high nibble first.
pub fn u8_from_nibbles_2(n2: u8, n3: u8) -> (r: u8)
    requires
        n2 < 16,
        n3 < 16,
    ensures
        r == n2 * 16 + n3,
{
    n2 * 16 + n3
}

/// Splits a byte into its decimal digits: hundreds, tens and ones.
pub fn binary_coded_decimal(value: u8) -> (r: (u8, u8, u8))
    ensures
        r.0 == value / 100,
        r.1 == (value / 10) % 10,
        r.2 == value % 10,
        r.0 * 100 + r.1 * 10 + r.2 == value,
{
    (value / 100, value / 10 - value / 100 * 10, value - value / 10 * 10)
}

} // verus!
