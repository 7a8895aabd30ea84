//! Integer vectors, rectangles, and compressed floats and vectors as stored in tag data.

use vstd::prelude::*;
use crate::endian::{ByteOrder, spec_u16_to_bytes, spec_u32_to_bytes};
use crate::error::RinghopperResult;
use crate::parse::SimpleTagData;
use crate::primitive::data::lemma_splice_concat;

verus! {

/// A 2D vector of 16-bit integers.
#[derive(Clone, Copy, Default, Debug, PartialEq, Eq, Structural)]
pub struct Vector2DInt {
    pub x: i16,
    pub y: i16,
}

impl SimpleTagData for Vector2DInt {
    open spec fn spec_simple_size() -> nat {
        4
    }

    open spec fn spec_read(big: bool, data: Seq<u8>, at: int, struct_end: int) -> RinghopperResult<Vector2DInt> {
        match i16::spec_read(big, data, at, struct_end) {
            Err(e) => Err(e),
            Ok(x) => match i16::spec_read(big, data, at + 2, struct_end) {
                Err(e) => Err(e),
                Ok(y) => Ok(Vector2DInt { x, y }),
            },
        }
    }

    open spec fn spec_encode(self, big: bool) -> RinghopperResult<Seq<u8>> {
        Ok(spec_u16_to_bytes(big, self.x as u16) + spec_u16_to_bytes(big, self.y as u16))
    }

    fn simple_size() -> (r: usize) {
        4
    }

    fn read<B: ByteOrder>(data: &[u8], at: usize, struct_end: usize) -> (r: RinghopperResult<Vector2DInt>) {
        let x = i16::read::<B>(data, at, struct_end)?;
        let y = i16::read::<B>(data, at + 2, struct_end)?;
        Ok(Vector2DInt { x, y })
    }

    fn write<B: ByteOrder>(&self, data: &mut [u8], at: usize, struct_end: usize) -> (r: RinghopperResult<()>) {
        let ghost d0 = data@;
        let ghost big = B::is_big_endian();
        self.x.write::<B>(data, at, struct_end)?;
        self.y.write::<B>(data, at + 2, struct_end)?;
        proof {
            crate::endian::lemma_u16_roundtrip(big, self.x as u16);
            crate::endian::lemma_u16_roundtrip(big, self.y as u16);
            lemma_splice_concat(d0, at as int, spec_u16_to_bytes(big, self.x as u16), spec_u16_to_bytes(big, self.y as u16));
        }
        Ok(())
    }
}

/// A rectangle with 16-bit integer edges.
#[derive(Clone, Copy, Default, Debug, PartialEq, Eq, Structural)]
pub struct Rectangle {
    pub top: i16,
    pub left: i16,
    pub bottom: i16,
    pub right: i16,
}

impl SimpleTagData for Rectangle {
    open spec fn spec_simple_size() -> nat {
        8
    }

    open spec fn spec_read(big: bool, data: Seq<u8>, at: int, struct_end: int) -> RinghopperResult<Rectangle> {
        match i16::spec_read(big, data, at, struct_end) {
            Err(e) => Err(e),
            Ok(top) => match i16::spec_read(big, data, at + 2, struct_end) {
                Err(e) => Err(e),
                Ok(left) => match i16::spec_read(big, data, at + 4, struct_end) {
                    Err(e) => Err(e),
                    Ok(bottom) => match i16::spec_read(big, data, at + 6, struct_end) {
                        Err(e) => Err(e),
                        Ok(right) => Ok(Rectangle { top, left, bottom, right }),
                    },
                },
            },
        }
    }

    open spec fn spec_encode(self, big: bool) -> RinghopperResult<Seq<u8>> {
        Ok(spec_u16_to_bytes(big, self.top as u16) + spec_u16_to_bytes(big, self.left as u16) + spec_u16_to_bytes(
            big,
            self.bottom as u16,
        ) + spec_u16_to_bytes(big, self.right as u16))
    }

    fn simple_size() -> (r: usize) {
        8
    }

    fn read<B: ByteOrder>(data: &[u8], at: usize, struct_end: usize) -> (r: RinghopperResult<Rectangle>) {
        let top = i16::read::<B>(data, at, struct_end)?;
        let left = i16::read::<B>(data, at + 2, struct_end)?;
        let bottom = i16::read::<B>(data, at + 4, struct_end)?;
        let right = i16::read::<B>(data, at + 6, struct_end)?;
        Ok(Rectangle { top, left, bottom, right })
    }

    fn write<B: ByteOrder>(&self, data: &mut [u8], at: usize, struct_end: usize) -> (r: RinghopperResult<()>) {
        let ghost d0 = data@;
        let ghost big = B::is_big_endian();
        self.top.write::<B>(data, at, struct_end)?;
        self.left.write::<B>(data, at + 2, struct_end)?;
        self.bottom.write::<B>(data, at + 4, struct_end)?;
        self.right.write::<B>(data, at + 6, struct_end)?;
        proof {
            let a = spec_u16_to_bytes(big, self.top as u16);
            let b = spec_u16_to_bytes(big, self.left as u16);
            let c = spec_u16_to_bytes(big, self.bottom as u16);
            let e = spec_u16_to_bytes(big, self.right as u16);
            crate::endian::lemma_u16_roundtrip(big, self.top as u16);
            crate::endian::lemma_u16_roundtrip(big, self.left as u16);
            crate::endian::lemma_u16_roundtrip(big, self.bottom as u16);
            crate::endian::lemma_u16_roundtrip(big, self.right as u16);
            lemma_splice_concat(d0, at as int, a, b);
            lemma_splice_concat(d0, at as int, a + b, c);
            lemma_splice_concat(d0, at as int, a + b + c, e);
        }
        Ok(())
    }
}

/// Denotes a float compressed into a 16-bit integer.
#[derive(Clone, Copy, Default, Debug, PartialEq, Eq, Structural)]
pub struct CompressedFloat {
    pub data: u16,
}

/// Denotes a 3D vector compressed into a 32-bit integer.
#[derive(Clone, Copy, Default, Debug, PartialEq, Eq, Structural)]
pub struct CompressedVector3D {
    pub data: u32,
}

/// Denotes a 2D vector compressed into a 32-bit integer.
#[derive(Clone, Copy, Default, Debug, PartialEq, Eq, Structural)]
pub struct CompressedVector2D {
    pub data: u32,
}

impl SimpleTagData for CompressedFloat {
    open spec fn spec_simple_size() -> nat {
        2
    }

    open spec fn spec_read(big: bool, data: Seq<u8>, at: int, struct_end: int) -> RinghopperResult<CompressedFloat> {
        match u16::spec_read(big, data, at, struct_end) {
            Err(e) => Err(e),
            Ok(v) => Ok(CompressedFloat { data: v }),
        }
    }

    open spec fn spec_encode(self, big: bool) -> RinghopperResult<Seq<u8>> {
        Ok(spec_u16_to_bytes(big, self.data))
    }

    fn simple_size() -> (r: usize) {
        2
    }

    fn read<B: ByteOrder>(data: &[u8], at: usize, struct_end: usize) -> (r: RinghopperResult<CompressedFloat>) {
        let v = u16::read::<B>(data, at, struct_end)?;
        Ok(CompressedFloat { data: v })
    }

    fn write<B: ByteOrder>(&self, data: &mut [u8], at: usize, struct_end: usize) -> (r: RinghopperResult<()>) {
        self.data.write::<B>(data, at, struct_end)
    }
}

impl SimpleTagData for CompressedVector3D {
    open spec fn spec_simple_size() -> nat {
        4
    }

    open spec fn spec_read(big: bool, data: Seq<u8>, at: int, struct_end: int) -> RinghopperResult<CompressedVector3D> {
        match u32::spec_read(big, data, at, struct_end) {
            Err(e) => Err(e),
            Ok(v) => Ok(CompressedVector3D { data: v }),
        }
    }

    open spec fn spec_encode(self, big: bool) -> RinghopperResult<Seq<u8>> {
        Ok(spec_u32_to_bytes(big, self.data))
    }

    fn simple_size() -> (r: usize) {
        4
    }

    fn read<B: ByteOrder>(data: &[u8], at: usize, struct_end: usize) -> (r: RinghopperResult<CompressedVector3D>) {
        let v = u32::read::<B>(data, at, struct_end)?;
        Ok(CompressedVector3D { data: v })
    }

    fn write<B: ByteOrder>(&self, data: &mut [u8], at: usize, struct_end: usize) -> (r: RinghopperResult<()>) {
        self.data.write::<B>(data, at, struct_end)
    }
}

impl SimpleTagData for CompressedVector2D {
    open spec fn spec_simple_size() -> nat {
        4
    }

    open spec fn spec_read(big: bool, data: Seq<u8>, at: int, struct_end: int) -> RinghopperResult<CompressedVector2D> {
        match u32::spec_read(big, data, at, struct_end) {
            Err(e) => Err(e),
            Ok(v) => Ok(CompressedVector2D { data: v }),
        }
    }

    open spec fn spec_encode(self, big: bool) -> RinghopperResult<Seq<u8>> {
        Ok(spec_u32_to_bytes(big, self.data))
    }

    fn simple_size() -> (r: usize) {
        4
    }

    fn read<B: ByteOrder>(data: &[u8], at: usize, struct_end: usize) -> (r: RinghopperResult<CompressedVector2D>) {
        let v = u32::read::<B>(data, at, struct_end)?;
        Ok(CompressedVector2D { data: v })
    }

    fn write<B: ByteOrder>(&self, data: &mut [u8], at: usize, struct_end: usize) -> (r: RinghopperResult<()>) {
        self.data.write::<B>(data, at, struct_end)
    }
}

} // verus!
