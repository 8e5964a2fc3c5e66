//! Colors given as hexadecimal numbers.
use vstd::prelude::*;

verus! {

/// The red, green and blue channels of a color written as `0xRRGGBB`: the bytes of the
/// number from the third lowest to the lowest.
pub fn hex_channels(hex: u32) -> (r: (u8, u8, u8))
    ensures
        r.0 == (hex / 0x10000) % 0x100,
        r.1 == (hex / 0x100) % 0x100,
        r.2 == hex % 0x100,
{
    let red = (hex >> 16) & 0xFF;
    let green = (hex >> 8) & 0xFF;
    let blue = hex & 0xFF;
    assert(red == (hex / 0x10000) % 0x100) by (bit_vector)
        requires red == (hex >> 16) & 0xFF;
    assert(green == (hex / 0x100) % 0x100) by (bit_vector)
        requires green == (hex >> 8) & 0xFF;
    assert(blue == hex % 0x100) by (bit_vector)
        requires blue == hex & 0xFF;
    (red as u8, green as u8, blue as u8)
}

} // verus!
