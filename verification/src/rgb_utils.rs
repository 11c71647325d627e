//! Packing and unpacking of RGBA colours held in one `u32`:
//! red in the highest byte, then green, blue, and alpha in the lowest byte.

use vstd::prelude::*;

verus! {

/// The colour packed from four channels, as a number.
pub open spec fn spec_rgba(red: u8, green: u8, blue: u8, alpha: u8) -> u32 {
    (red as int * 0x100_0000 + green as int * 0x1_0000 + blue as int * 0x100 + alpha as int) as u32
}

/// Red channel of a packed colour.
pub open spec fn spec_red(c: u32) -> u8 {
    (c / 0x100_0000) as u8
}

/// Green channel of a packed colour.
pub open spec fn spec_green(c: u32) -> u8 {
    ((c / 0x1_0000) % 0x100) as u8
}

/// Blue channel of a packed colour.
pub open spec fn spec_blue(c: u32) -> u8 {
    ((c / 0x100) % 0x100) as u8
}

/// Alpha channel of a packed colour.
pub open spec fn spec_alpha(c: u32) -> u8 {
    (c % 0x100) as u8
}

/// Packs four channels into one colour.
pub fn rgba(red: u8, green: u8, blue: u8, alpha: u8) -> (c: u32)
    ensures
        c == spec_rgba(red, green, blue, alpha),
        c as int == red as int * 0x100_0000 + green as int * 0x1_0000 + blue as int * 0x100 + alpha as int,
{
    let b = (blue as u32) << 8u32;
    let g = (green as u32) << 16u32;
    let r = (red as u32) << 24u32;
    let a = alpha as u32;
    let c = r | g | b | a;
    assert(c as int == red as int * 0x100_0000 + green as int * 0x1_0000 + blue as int * 0x100
        + alpha as int) by (bit_vector)
        requires
            b == (blue as u32) << 8u32,
            g == (green as u32) << 16u32,
            r == (red as u32) << 24u32,
            a == alpha as u32,
            c == r | g | b | a,
    ;
    c
}

/// The alpha channel (lowest byte).
pub fn get_rgba_a(rgba: u32) -> (a: u8)
    ensures
        a == spec_alpha(rgba),
{
    let a = (rgba & 0xFFu32) as u8;
    assert(a == (rgba % 0x100) as u8) by (bit_vector)
        requires
            a == (rgba & 0xFFu32) as u8,
    ;
    a
}

/// The red channel (highest byte).
pub fn get_rgba_r(rgba: u32) -> (r: u8)
    ensures
        r == spec_red(rgba),
{
    let r = ((rgba & 0xFF00_0000u32) >> 24u32) as u8;
    assert(r == (rgba / 0x100_0000) as u8) by (bit_vector)
        requires
            r == ((rgba & 0xFF00_0000u32) >> 24u32) as u8,
    ;
    r
}

/// The green channel (second byte from the top).
pub fn get_rgba_g(rgba: u32) -> (g: u8)
    ensures
        g == spec_green(rgba),
{
    let g = ((rgba & 0x00FF_0000u32) >> 16u32) as u8;
    assert(g == ((rgba / 0x1_0000) % 0x100) as u8) by (bit_vector)
        requires
            g == ((rgba & 0x00FF_0000u32) >> 16u32) as u8,
    ;
    g
}

/// The blue channel (second byte from the bottom).
pub fn get_rgba_b(rgba: u32) -> (b: u8)
    ensures
        b == spec_blue(rgba),
{
    let b = ((rgba & 0x0000_FF00u32) >> 8u32) as u8;
    assert(b == ((rgba / 0x100) % 0x100) as u8) by (bit_vector)
        requires
            b == ((rgba & 0x0000_FF00u32) >> 8u32) as u8,
    ;
    b
}

/// All four channels, as `(red, green, blue, alpha)`.
pub fn get_rgba(rgba: u32) -> (res: (u8, u8, u8, u8))
    ensures
        res == (spec_red(rgba), spec_green(rgba), spec_blue(rgba), spec_alpha(rgba)),
{
    let r = get_rgba_r(rgba);
    let g = get_rgba_g(rgba);
    let b = get_rgba_b(rgba);
    let a = get_rgba_a(rgba);
    (r, g, b, a)
}

/// Unpacking a packed colour gives back the channels it was packed from.
pub proof fn lemma_unpack_pack(red: u8, green: u8, blue: u8, alpha: u8)
    ensures
        spec_red(spec_rgba(red, green, blue, alpha)) == red,
        spec_green(spec_rgba(red, green, blue, alpha)) == green,
        spec_blue(spec_rgba(red, green, blue, alpha)) == blue,
        spec_alpha(spec_rgba(red, green, blue, alpha)) == alpha,
{
    let c = spec_rgba(red, green, blue, alpha);
    let v: int = red as int * 0x100_0000 + green as int * 0x1_0000 + blue as int * 0x100
        + alpha as int;
    assert(0 <= v <= u32::MAX) by (nonlinear_arith)
        requires
            v == red as int * 0x100_0000 + green as int * 0x1_0000 + blue as int * 0x100
                + alpha as int,
    ;
    assert(c as int == v);
    assert((c / 0x100_0000) as u8 == red && ((c / 0x1_0000) % 0x100) as u8 == green
        && ((c / 0x100) % 0x100) as u8 == blue && (c % 0x100) as u8 == alpha) by (nonlinear_arith)
        requires
            c as int == red as int * 0x100_0000 + green as int * 0x1_0000 + blue as int * 0x100
                + alpha as int,
    ;
}

/// Packing the channels of a colour gives back that colour.
pub proof fn lemma_pack_unpack(c: u32)
    ensures
        spec_rgba(spec_red(c), spec_green(c), spec_blue(c), spec_alpha(c)) == c,
{
    assert(((c / 0x100_0000) as u8) as int * 0x100_0000 + (((c / 0x1_0000) % 0x100) as u8) as int
        * 0x1_0000 + (((c / 0x100) % 0x100) as u8) as int * 0x100 + ((c % 0x100) as u8) as int
        == c as int) by (nonlinear_arith);
}

} // verus!
