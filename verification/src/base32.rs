//! Base32 without padding (RFC 4648 §6), the encoding of TOTP secrets.

use vstd::prelude::*;

verus! {

/// The character of a five-bit value: `A`-`Z`, then `2`-`7`.
pub open spec fn b32_char(v: int) -> char {
    if v < 26 {
        (65 + v) as char
    } else {
        (24 + v) as char
    }
}

/// `32` to the power `e`.
pub open spec fn pow32(e: int) -> int
    decreases e,
{
    if e <= 0 {
        1
    } else {
        32 * pow32(e - 1)
    }
}

/// The characters of the first group of up to five bytes: the bytes (the
/// missing ones zero) as a 40-bit number, high bits first, five bits per
/// character; one to four bytes give two, four, five or seven characters.
pub open spec fn b32_group(b: Seq<u8>) -> Seq<char> {
    let n = if b.len() < 5 { b.len() as int } else { 5 };
    let v = (if n > 0 { b[0] as int } else { 0 }) * 0x1_0000_0000 + (if n > 1 { b[1] as int } else { 0 }) * 0x100_0000
        + (if n > 2 { b[2] as int } else { 0 }) * 0x1_0000 + (if n > 3 { b[3] as int } else { 0 }) * 0x100 + (if n
        > 4 { b[4] as int } else { 0 });
    let count: int = if n == 0 {
        0
    } else if n == 1 {
        2
    } else if n == 2 {
        4
    } else if n == 3 {
        5
    } else if n == 4 {
        7
    } else {
        8
    };
    Seq::new(count as nat, |k: int| b32_char((v / pow32(7 - k)) % 32))
}

/// The base32 text of bytes without padding, five bytes at a time.
pub open spec fn base32_nopad(b: Seq<u8>) -> Seq<char>
    decreases b.len(),
{
    if b.len() <= 5 {
        b32_group(b)
    } else {
        b32_group(b) + base32_nopad(b.skip(5))
    }
}

} // verus!
