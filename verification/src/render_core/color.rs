//! The integer side of colors: channels packed in hexadecimal values.
use vstd::prelude::*;

verus! {

/// The 8-bit red, green, blue and alpha channels of a packed color value
/// `0xRRGGBB` or `0xAARRGGBB`. A value that fits in 24 bits has no alpha
/// byte and is opaque (alpha 255); a larger value carries its alpha in the
/// top byte.
pub open spec fn spec_rgba8_from_hex(hex: u32) -> (u8, u8, u8, u8) {
    (
        ((hex / 0x10000) % 0x100) as u8,
        ((hex / 0x100) % 0x100) as u8,
        (hex % 0x100) as u8,
        if hex > 0xFFFFFF {
            (hex / 0x1000000) as u8
        } else {
            255u8
        },
    )
}

/// The 8-bit channels of a packed color value (see [`spec_rgba8_from_hex`]).
pub fn rgba8_from_hex(hex: u32) -> (r: (u8, u8, u8, u8))
    ensures
        r == spec_rgba8_from_hex(hex),
        r.0 as int * 0x10000 + r.1 as int * 0x100 + r.2 as int == hex % 0x1000000,
        hex > 0xFFFFFF ==> r.3 as int * 0x1000000 + hex % 0x1000000 == hex,
        hex <= 0xFFFFFF ==> r.3 == 255,
{
    let r = ((hex >> 16) & 0xFF) as u8;
    let g = ((hex >> 8) & 0xFF) as u8;
    let b = (hex & 0xFF) as u8;
    let a = if hex > 0xFFFFFF {
        ((hex >> 24) & 0xFF) as u8
    } else {
        255
    };
    assert((hex >> 16) & 0xFF == (hex / 0x10000) % 0x100) by (bit_vector);
    assert((hex >> 8) & 0xFF == (hex / 0x100) % 0x100) by (bit_vector);
    assert(hex & 0xFF == hex % 0x100) by (bit_vector);
    assert((hex >> 24) & 0xFF == hex / 0x1000000) by (bit_vector);
    assert(((hex >> 16) & 0xFF) * 0x10000 + ((hex >> 8) & 0xFF) * 0x100 + (hex & 0xFF) == hex
        % 0x1000000) by (bit_vector);
    assert(((hex >> 24) & 0xFF) * 0x1000000 + hex % 0x1000000 == hex) by (bit_vector);
    (r, g, b, a)
}

} // verus!
