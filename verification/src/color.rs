//! Colors as fixed-point vectors, and the conversion to output bytes.

use vstd::prelude::*;

verus! {

use crate::fx::iabs;
use crate::vec3::Vec3;

/// A color is a vector whose components are the linear channel values,
/// with one unit meaning full intensity.
pub type Color = Vec3;

/// The exact output byte for a linear channel value: the channel scaled by
/// just under 256 and clamped into a byte, as the output format asks.
pub open spec fn to_byte_spec(c: int) -> int {
    if c <= 0 {
        0
    } else if (c * 255999) / 65536000 >= 255 {
        255
    } else {
        (c * 255999) / 65536000
    }
}

/// Convert one linear channel value to an output byte; exact per
/// `to_byte_spec`.
pub fn to_byte(c: i64) -> (r: u8)
    requires
        iabs(c as int) <= 0x100_0000_0000,
    ensures
        r == to_byte_spec(c as int),
{
    if c <= 0 {
        0
    } else {
        let q: u64 = ((c as u64) * 255999) / 65536000;
        if q >= 255 {
            255
        } else {
            q as u8
        }
    }
}

/// The three output bytes of a color, in red, green, blue order.
pub fn to_rgb(pixel_color: Color) -> (r: (u8, u8, u8))
    requires
        iabs(pixel_color.x as int) <= 0x100_0000_0000,
        iabs(pixel_color.y as int) <= 0x100_0000_0000,
        iabs(pixel_color.z as int) <= 0x100_0000_0000,
    ensures
        r.0 == to_byte_spec(pixel_color.x as int),
        r.1 == to_byte_spec(pixel_color.y as int),
        r.2 == to_byte_spec(pixel_color.z as int),
{
    (to_byte(pixel_color.x), to_byte(pixel_color.y), to_byte(pixel_color.z))
}

/// Write a color's three bytes into a pixel buffer at byte offset `i`.
pub fn write_color(buf: &mut Vec<u8>, i: usize, pixel_color: Color) -> (r: ())
    requires
        i + 2 < old(buf).len(),
        iabs(pixel_color.x as int) <= 0x100_0000_0000,
        iabs(pixel_color.y as int) <= 0x100_0000_0000,
        iabs(pixel_color.z as int) <= 0x100_0000_0000,
    ensures
        final(buf)@ == old(buf)@.update(i as int, to_byte_spec(pixel_color.x as int) as u8).update(
            i + 1,
            to_byte_spec(pixel_color.y as int) as u8,
        ).update(i + 2, to_byte_spec(pixel_color.z as int) as u8),
{
    buf[i] = to_byte(pixel_color.x);
    buf[i + 1] = to_byte(pixel_color.y);
    buf[i + 2] = to_byte(pixel_color.z);
}

pub fn red() -> (r: Color)
    ensures
        r == (Vec3 { x: 65536, y: 0, z: 0 }),
{
    Vec3 { x: 65536, y: 0, z: 0 }
}

pub fn green() -> (r: Color)
    ensures
        r == (Vec3 { x: 0, y: 65536, z: 0 }),
{
    Vec3 { x: 0, y: 65536, z: 0 }
}

pub fn blue() -> (r: Color)
    ensures
        r == (Vec3 { x: 0, y: 0, z: 65536 }),
{
    Vec3 { x: 0, y: 0, z: 65536 }
}

pub fn white() -> (r: Color)
    ensures
        r == (Vec3 { x: 65536, y: 65536, z: 65536 }),
{
    Vec3 { x: 65536, y: 65536, z: 65536 }
}

pub fn black() -> (r: Color)
    ensures
        r == (Vec3 { x: 0, y: 0, z: 0 }),
{
    Vec3 { x: 0, y: 0, z: 0 }
}

pub fn yellow() -> (r: Color)
    ensures
        r == (Vec3 { x: 65536, y: 65536, z: 0 }),
{
    Vec3 { x: 65536, y: 65536, z: 0 }
}

pub fn cyan() -> (r: Color)
    ensures
        r == (Vec3 { x: 0, y: 65536, z: 65536 }),
{
    Vec3 { x: 0, y: 65536, z: 65536 }
}

pub fn magenta() -> (r: Color)
    ensures
        r == (Vec3 { x: 65536, y: 0, z: 65536 }),
{
    Vec3 { x: 65536, y: 0, z: 65536 }
}

} // verus!
