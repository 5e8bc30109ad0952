use vstd::prelude::*;

verus! {

/// An RGB colour with eight bits per channel.
#[derive(Clone, Copy, Debug, PartialEq, Eq, Structural)]
pub struct Color {
    pub r: u8,
    pub g: u8,
    pub b: u8,
}

/// The value (0 or 1) of bit `bit` of `byte`.
pub open spec fn bit_of(byte: u8, bit: u8) -> u8 {
    (byte >> bit) & 1
}

/// Whether a byte is negative when read as a two's complement number.
pub open spec fn spec_negative(a: u8) -> bool {
    a >= 128
}

/// The little-endian 16-bit word made of a low and a high byte.
pub open spec fn spec_endian(lo: u8, hi: u8) -> u16 {
    (hi as int * 256 + lo as int) as u16
}

/// Whether adding `added` to `address` (modulo 2^16) lands on another 256-byte page.
pub open spec fn spec_page_crossed(address: u16, added: u8) -> bool {
    ((address as int + added as int) % 0x10000) / 256 != address as int / 256
}

/// Returns bit `bit` of `byte` as 0 or 1.
pub fn get_bit(byte: u8, bit: u8) -> (r: u8)
    requires
        bit < 8,
    ensures
        r == bit_of(byte, bit),
        r <= 1,
{
    let r = (byte & (1u8 << bit)) >> bit;
    assert(r == (byte >> bit) & 1 && r <= 1) by (bit_vector)
        requires
            r == (byte & (1u8 << bit)) >> bit,
            bit < 8,
    ;
    r
}

/// Joins a low byte `n1` and a high byte `n2` into a 16-bit word.
pub fn endian(n1: u8, n2: u8) -> (r: u16)
    ensures
        r == spec_endian(n1, n2),
        r == n2 as int * 256 + n1 as int,
{
    assert(((n2 as u16) << 8) == n2 as u16 * 256) by (bit_vector);
    assert(n2 as u16 * 256 <= 0xFF00);
    let r = ((n2 as u16) << 8) + (n1 as u16);
    r
}

/// Splits a 16-bit word into its low byte and its high byte, in that order.
pub fn unendian(c: u16) -> (r: [u8; 2])
    ensures
        r@.len() == 2,
        r[0] == c % 256,
        r[1] == c / 256,
{
    let a = c & 0xFF;
    let b = (c & 0xFF00) >> 8;
    assert(c & 0xFF == c % 256 && (c & 0xFF00) >> 8 == c / 256) by (bit_vector);
    [a as u8, b as u8]
}

/// Whether `a` is negative when read as a two's complement byte.
pub fn is_negative(a: u8) -> (r: bool)
    ensures
        r == spec_negative(a),
{
    assert(((a as i8) < 0) == (a >= 128)) by (bit_vector);
    if (a as i8) < 0 {
        true
    } else {
        false
    }
}

/// Whether `address + added` (wrapping at 2^16) lies on a different 256-byte page than `address`.
pub fn page_crossed(address: u16, added: u8) -> (r: bool)
    ensures
        r == spec_page_crossed(address, added),
{
    let c = address.wrapping_add(added as u16);
    let mask: u16 = 0xFF00;
    assert(c & 0xFF00 == (c / 256) * 256 && address & 0xFF00 == (address / 256) * 256) by (bit_vector);
    if (c & mask) != (address & mask) {
        return true;
    } else {
        return false;
    }
}

/// Splits a 0xRRGGBB colour code into its three channels.
pub fn hex_to_color(color: u32) -> (r: Color)
    ensures
        r.r == (color / 0x10000) % 256,
        r.g == (color / 0x100) % 256,
        r.b == color % 256,
{
    let r = (color >> 16) & 0xff;
    let g = (color >> 8) & 0xff;
    let b = color & 0xff;
    assert((color >> 16) & 0xff == (color / 0x10000) % 256 && (color >> 8) & 0xff == (color / 0x100) % 256
        && color & 0xff == color % 256) by (bit_vector);
    Color { r: r as u8, g: g as u8, b: b as u8 }
}

} // verus!

verus! {

/// Splitting a word into its low and high bytes and joining them again gives the word back;
/// joining two bytes and splitting the word gives them back.
pub proof fn law_endian_roundtrip(c: u16, lo: u8, hi: u8)
    ensures
        spec_endian((c % 256) as u8, (c / 256) as u8) == c,
        spec_endian(lo, hi) % 256 == lo,
        spec_endian(lo, hi) / 256 == hi,
{
}

} // verus!
