//! Two's-complement readings of bytes and nibbles.
//!
//! The hardware stores signed quantities as bit patterns: a branch
//! displacement as a byte, a horizontal motion as a nibble. The functions here
//! convert between a pattern and the number it stands for, each with its range
//! spelled out, so that no signedness hides in a cast.

use vstd::prelude::*;

verus! {

/// The number that the byte `b` stands for in 8-bit two's complement.
///
/// Meant for `0 <= b < 256`; the result then lies in `-128 ..= 127`.
pub open spec fn byte_value(b: int) -> int {
    if b < 128 {
        b
    } else {
        b - 256
    }
}

/// The number that the nibble `n` stands for in 4-bit two's complement.
///
/// Meant for `0 <= n < 16`; the result then lies in `-8 ..= 7`.
pub open spec fn nibble_value(n: int) -> int {
    if n < 8 {
        n
    } else {
        n - 16
    }
}

/// The byte that stands for `v` in 8-bit two's complement.
///
/// Meant for `-128 <= v < 128`; the result then lies in `0 ..= 255`.
pub open spec fn byte_pattern(v: int) -> int {
    if v < 0 {
        v + 256
    } else {
        v
    }
}

/// Reads a byte as an 8-bit two's-complement number: `0x00 ..= 0x7f` stand for
/// `0 ..= 127`, `0x80 ..= 0xff` for `-128 ..= -1`.
pub fn byte_to_signed(b: u8) -> (v: i8)
    ensures
        v == byte_value(b as int),
{
    if b < 128 {
        b as i8
    } else {
        let below: u8 = 255 - b;
        -1 - (below as i8)
    }
}

/// Reads the low four bits of `n` as a 4-bit two's-complement number:
/// `0x0 ..= 0x7` stand for `0 ..= 7`, `0x8 ..= 0xf` for `-8 ..= -1`. The high
/// four bits of `n` are ignored.
pub fn nibble_to_signed(n: u8) -> (v: i8)
    ensures
        v == nibble_value(n as int % 16),
        -8 <= v <= 7,
{
    let low: u8 = n % 16;
    if low < 8 {
        low as i8
    } else {
        (low as i8) - 16
    }
}

/// The bit pattern of a signed byte: `0 ..= 127` stay as they are,
/// `-128 ..= -1` become `0x80 ..= 0xff`.
pub fn signed_to_byte(v: i8) -> (b: u8)
    ensures
        b == byte_pattern(v as int),
{
    if v >= 0 {
        v as u8
    } else {
        // v + 128 does not fit an i8 literal: add it in two steps.
        let above: i8 = (v + 64) + 64;
        (above as u8) + 128
    }
}

/// Reading a byte as a signed number and taking the pattern of a signed number undo each other.
pub proof fn lemma_byte_round_trip(b: int, v: int)
    requires
        0 <= b < 256,
        -128 <= v < 128,
    ensures
        byte_pattern(byte_value(b)) == b,
        byte_value(byte_pattern(v)) == v,
{
}

} // verus!
