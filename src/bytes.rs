use vstd::prelude::*;

verus! {

/// The unsigned little-endian value of the two bytes at `at`.
pub open spec fn u16_le(s: Seq<u8>, at: int) -> int {
    s[at] as int + 256 * (s[at + 1] as int)
}

/// The signed (two's complement) little-endian value of the two bytes at `at`.
pub open spec fn i16_le(s: Seq<u8>, at: int) -> int {
    if u16_le(s, at) >= 32768 {
        u16_le(s, at) - 65536
    } else {
        u16_le(s, at)
    }
}

/// Reads an unsigned little-endian 16-bit integer at offset `at`.
pub fn read_u16_le(data: &[u8], at: usize) -> (r: u16)
    requires
        at + 2 <= data@.len(),
    ensures
        r as int == u16_le(data@, at as int),
{
    let lo = data[at] as u16;
    let hi = data[at + 1] as u16;
    lo + 256 * hi
}

/// Reads a signed little-endian 16-bit integer at offset `at`.
pub fn read_i16_le(data: &[u8], at: usize) -> (r: i16)
    requires
        at + 2 <= data@.len(),
    ensures
        r as int == i16_le(data@, at as int),
{
    let v = read_u16_le(data, at);
    if v >= 32768 {
        (v as i32 - 65536) as i16
    } else {
        v as i16
    }
}


} // verus!
