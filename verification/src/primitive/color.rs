//! Colors of 8-bit integer channels, packed into a `u32` or held as separate bytes.

use vstd::prelude::*;
use vstd::std_specs::convert::FromSpecImpl;
use crate::endian::ByteOrder;
use crate::error::RinghopperResult;
use crate::parse::SimpleTagData;
use crate::text::{format_decimal, spec_decimal_digits};
use vstd::string::StringExecFns;

verus! {

/// The packed form of a color: alpha in the most significant byte, then red, green and blue.
pub open spec fn spec_pack_argb(alpha: u8, red: u8, green: u8, blue: u8) -> u32 {
    ((alpha as u32) << 24u32) | ((red as u32) << 16u32) | ((green as u32) << 8u32) | (blue as u32)
}

/// The channels of a packed color.
pub open spec fn spec_unpack_argb(value: u32) -> ColorARGBIntBytes {
    ColorARGBIntBytes {
        alpha: ((value & 0xFF000000u32) >> 24u32) as u8,
        red: ((value & 0x00FF0000u32) >> 16u32) as u8,
        green: ((value & 0x0000FF00u32) >> 8u32) as u8,
        blue: (value & 0x000000FFu32) as u8,
    }
}

/// Refers to a color composed of 8-bit integer color with alpha stored in integer form.
#[derive(Clone, Copy, Default, Debug, PartialEq, Eq, Structural)]
pub struct ColorARGBInt {
    pub color: u32,
}

/// Refers to a color composed of 8-bit integer color with alpha.
#[derive(Clone, Copy, Default, Debug, PartialEq, Eq, Structural)]
pub struct ColorARGBIntBytes {
    pub alpha: u8,
    pub red: u8,
    pub green: u8,
    pub blue: u8,
}

impl ColorARGBIntBytes {
    /// The packed form of the color.
    pub open spec fn spec_packed(self) -> u32 {
        spec_pack_argb(self.alpha, self.red, self.green, self.blue)
    }

    /// The color as it is displayed: each channel in decimal.
    pub fn to_string(&self) -> (r: String)
        ensures
            r@ == spec_color_text(*self),
    {
        let mut m = "{ alpha = ".to_owned();
        m.append(format_decimal(self.alpha as usize).as_str());
        m.append(", red = ");
        m.append(format_decimal(self.red as usize).as_str());
        m.append(", green = ");
        m.append(format_decimal(self.green as usize).as_str());
        m.append(", blue = ");
        m.append(format_decimal(self.blue as usize).as_str());
        m.append(" }");
        m
    }
}

/// How a color is displayed: `{ alpha = a, red = r, green = g, blue = b }`, each channel in decimal.
pub open spec fn spec_color_text(c: ColorARGBIntBytes) -> Seq<char> {
    "{ alpha = "@ + spec_decimal_digits(c.alpha as nat) + ", red = "@ + spec_decimal_digits(c.red as nat) + ", green = "@
        + spec_decimal_digits(c.green as nat) + ", blue = "@ + spec_decimal_digits(c.blue as nat) + " }"@
}

impl ColorARGBInt {
    /// The color as it is displayed: as its channels are.
    pub fn to_string(&self) -> (r: String)
        ensures
            r@ == spec_color_text(spec_unpack_argb(self.color)),
    {
        unpack_argb(self.color).to_string()
    }
}

/// Pack the channels of a color.
fn pack_argb(value: ColorARGBIntBytes) -> (r: u32)
    ensures
        r == value.spec_packed(),
{
    ((value.alpha as u32) << 24) | ((value.red as u32) << 16) | ((value.green as u32) << 8) | (value.blue as u32)
}

/// Split a packed color into its channels.
fn unpack_argb(value: u32) -> (r: ColorARGBIntBytes)
    ensures
        r == spec_unpack_argb(value),
{
    ColorARGBIntBytes {
        alpha: ((value & 0xFF000000) >> 24) as u8,
        red: ((value & 0x00FF0000) >> 16) as u8,
        green: ((value & 0x0000FF00) >> 8) as u8,
        blue: (value & 0x000000FF) as u8,
    }
}

impl From<u32> for ColorARGBIntBytes {
    fn from(value: u32) -> (r: ColorARGBIntBytes) {
        unpack_argb(value)
    }
}

impl FromSpecImpl<u32> for ColorARGBIntBytes {
    open spec fn obeys_from_spec() -> bool {
        true
    }

    open spec fn from_spec(v: u32) -> ColorARGBIntBytes {
        spec_unpack_argb(v)
    }
}

impl From<ColorARGBInt> for u32 {
    fn from(value: ColorARGBInt) -> (r: u32) {
        value.color
    }
}

impl FromSpecImpl<ColorARGBInt> for u32 {
    open spec fn obeys_from_spec() -> bool {
        true
    }

    open spec fn from_spec(v: ColorARGBInt) -> u32 {
        v.color
    }
}

impl From<u32> for ColorARGBInt {
    fn from(value: u32) -> (r: ColorARGBInt) {
        ColorARGBInt { color: value }
    }
}

impl FromSpecImpl<u32> for ColorARGBInt {
    open spec fn obeys_from_spec() -> bool {
        true
    }

    open spec fn from_spec(v: u32) -> ColorARGBInt {
        ColorARGBInt { color: v }
    }
}

impl From<ColorARGBIntBytes> for u32 {
    fn from(value: ColorARGBIntBytes) -> (r: u32) {
        pack_argb(value)
    }
}

impl FromSpecImpl<ColorARGBIntBytes> for u32 {
    open spec fn obeys_from_spec() -> bool {
        true
    }

    open spec fn from_spec(v: ColorARGBIntBytes) -> u32 {
        v.spec_packed()
    }
}

impl From<ColorARGBIntBytes> for ColorARGBInt {
    fn from(value: ColorARGBIntBytes) -> (r: ColorARGBInt) {
        ColorARGBInt { color: pack_argb(value) }
    }
}

impl FromSpecImpl<ColorARGBIntBytes> for ColorARGBInt {
    open spec fn obeys_from_spec() -> bool {
        true
    }

    open spec fn from_spec(v: ColorARGBIntBytes) -> ColorARGBInt {
        ColorARGBInt { color: v.spec_packed() }
    }
}

impl From<ColorARGBInt> for ColorARGBIntBytes {
    fn from(value: ColorARGBInt) -> (r: ColorARGBIntBytes) {
        unpack_argb(value.color)
    }
}

impl FromSpecImpl<ColorARGBInt> for ColorARGBIntBytes {
    open spec fn obeys_from_spec() -> bool {
        true
    }

    open spec fn from_spec(v: ColorARGBInt) -> ColorARGBIntBytes {
        spec_unpack_argb(v.color)
    }
}

/// Packing the channels of a color and splitting the result gives the channels back; splitting a packed color and
/// packing the channels gives the color back.
pub proof fn law_color_pack_roundtrip(bytes: ColorARGBIntBytes, value: u32)
    ensures
        spec_unpack_argb(bytes.spec_packed()) == bytes,
        spec_unpack_argb(value).spec_packed() == value,
{
    let (a, r, g, b) = (bytes.alpha, bytes.red, bytes.green, bytes.blue);
    assert(((((a as u32) << 24u32) | ((r as u32) << 16u32) | ((g as u32) << 8u32) | (b as u32)) & 0xFF000000u32) >> 24u32
        == a as u32) by (bit_vector);
    assert(((((a as u32) << 24u32) | ((r as u32) << 16u32) | ((g as u32) << 8u32) | (b as u32)) & 0x00FF0000u32) >> 16u32
        == r as u32) by (bit_vector);
    assert(((((a as u32) << 24u32) | ((r as u32) << 16u32) | ((g as u32) << 8u32) | (b as u32)) & 0x0000FF00u32) >> 8u32
        == g as u32) by (bit_vector);
    assert((((a as u32) << 24u32) | ((r as u32) << 16u32) | ((g as u32) << 8u32) | (b as u32)) & 0x000000FFu32 == b as u32)
        by (bit_vector);
    assert(((((value & 0xFF000000u32) >> 24u32) as u8 as u32) << 24u32) | ((((value & 0x00FF0000u32) >> 16u32) as u8 as u32)
        << 16u32) | ((((value & 0x0000FF00u32) >> 8u32) as u8 as u32) << 8u32) | ((value & 0x000000FFu32) as u8 as u32)
        == value) by (bit_vector);
}

impl SimpleTagData for ColorARGBInt {
    open spec fn spec_simple_size() -> nat {
        4
    }

    open spec fn spec_read(big: bool, data: Seq<u8>, at: int, struct_end: int) -> RinghopperResult<ColorARGBInt> {
        match u32::spec_read(big, data, at, struct_end) {
            Ok(color) => Ok(ColorARGBInt { color }),
            Err(e) => Err(e),
        }
    }

    open spec fn spec_encode(self, big: bool) -> RinghopperResult<Seq<u8>> {
        self.color.spec_encode(big)
    }

    fn simple_size() -> (r: usize) {
        4
    }

    fn read<B: ByteOrder>(data: &[u8], at: usize, struct_end: usize) -> (r: RinghopperResult<ColorARGBInt>) {
        Ok(ColorARGBInt { color: u32::read::<B>(data, at, struct_end)? })
    }

    fn write<B: ByteOrder>(&self, data: &mut [u8], at: usize, struct_end: usize) -> (r: RinghopperResult<()>) {
        self.color.write::<B>(data, at, struct_end)
    }
}

impl SimpleTagData for ColorARGBIntBytes {
    open spec fn spec_simple_size() -> nat {
        4
    }

    open spec fn spec_read(big: bool, data: Seq<u8>, at: int, struct_end: int) -> RinghopperResult<ColorARGBIntBytes> {
        match u32::spec_read(big, data, at, struct_end) {
            Ok(v) => Ok(spec_unpack_argb(v)),
            Err(e) => Err(e),
        }
    }

    open spec fn spec_encode(self, big: bool) -> RinghopperResult<Seq<u8>> {
        self.spec_packed().spec_encode(big)
    }

    fn simple_size() -> (r: usize) {
        4
    }

    fn read<B: ByteOrder>(data: &[u8], at: usize, struct_end: usize) -> (r: RinghopperResult<ColorARGBIntBytes>) {
        Ok(unpack_argb(u32::read::<B>(data, at, struct_end)?))
    }

    fn write<B: ByteOrder>(&self, data: &mut [u8], at: usize, struct_end: usize) -> (r: RinghopperResult<()>) {
        pack_argb(*self).write::<B>(data, at, struct_end)
    }
}

} // verus!
