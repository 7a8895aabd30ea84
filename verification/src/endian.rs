//! Byte orders for reading and writing integers, backed by the `byteorder` crate.

use vstd::prelude::*;

verus! {

/// The value of two bytes read in the given byte order.
pub open spec fn spec_u16_from_bytes(big: bool, b: Seq<u8>) -> u16 {
    (if big {
        b[0] as int * 0x100 + b[1] as int
    } else {
        b[1] as int * 0x100 + b[0] as int
    }) as u16
}

/// The value of four bytes read in the given byte order.
pub open spec fn spec_u32_from_bytes(big: bool, b: Seq<u8>) -> u32 {
    (if big {
        b[0] as int * 0x1000000 + b[1] as int * 0x10000 + b[2] as int * 0x100 + b[3] as int
    } else {
        b[3] as int * 0x1000000 + b[2] as int * 0x10000 + b[1] as int * 0x100 + b[0] as int
    }) as u32
}

/// The two bytes of `n` in the given byte order.
pub open spec fn spec_u16_to_bytes(big: bool, n: u16) -> Seq<u8> {
    let hi = (n / 0x100) as u8;
    let lo = (n % 0x100) as u8;
    if big {
        seq![hi, lo]
    } else {
        seq![lo, hi]
    }
}

/// The four bytes of `n` in the given byte order.
pub open spec fn spec_u32_to_bytes(big: bool, n: u32) -> Seq<u8> {
    let b3 = (n / 0x1000000) as u8;
    let b2 = ((n / 0x10000) % 0x100) as u8;
    let b1 = ((n / 0x100) % 0x100) as u8;
    let b0 = (n % 0x100) as u8;
    if big {
        seq![b3, b2, b1, b0]
    } else {
        seq![b0, b1, b2, b3]
    }
}

/// `data` with `bytes` written over it starting at `at`.
pub open spec fn spec_splice(data: Seq<u8>, at: int, bytes: Seq<u8>) -> Seq<u8> {
    data.subrange(0, at) + bytes + data.subrange(at + bytes.len(), data.len() as int)
}

/// Encoding then decoding two bytes gives back the value.
pub proof fn lemma_u16_roundtrip(big: bool, n: u16)
    ensures
        spec_u16_to_bytes(big, n).len() == 2,
        spec_u16_from_bytes(big, spec_u16_to_bytes(big, n)) == n,
{
    assert((n / 0x100) as u8 as int * 0x100 + (n % 0x100) as u8 as int == n) by (nonlinear_arith);
}

/// Encoding then decoding four bytes gives back the value.
pub proof fn lemma_u32_roundtrip(big: bool, n: u32)
    ensures
        spec_u32_to_bytes(big, n).len() == 4,
        spec_u32_from_bytes(big, spec_u32_to_bytes(big, n)) == n,
{
    assert(
        (n / 0x1000000) as u8 as int * 0x1000000 + ((n / 0x10000) % 0x100) as u8 as int * 0x10000
            + ((n / 0x100) % 0x100) as u8 as int * 0x100 + (n % 0x100) as u8 as int == n
    ) by (nonlinear_arith);
}

/// Decoding then encoding two bytes gives back the bytes.
pub proof fn lemma_u16_bytes_roundtrip(big: bool, b: Seq<u8>)
    requires
        b.len() == 2,
    ensures
        spec_u16_to_bytes(big, spec_u16_from_bytes(big, b)) == b,
{
    let (x, y) = if big { (b[0], b[1]) } else { (b[1], b[0]) };
    let n = (x as int * 0x100 + y as int) as u16;
    assert((n / 0x100) as u8 == x && (n % 0x100) as u8 == y) by (nonlinear_arith)
        requires
            n == x as int * 0x100 + y as int,
    ;
    assert(spec_u16_to_bytes(big, spec_u16_from_bytes(big, b)) =~= b);
}

/// Decoding then encoding four bytes gives back the bytes.
pub proof fn lemma_u32_bytes_roundtrip(big: bool, b: Seq<u8>)
    requires
        b.len() == 4,
    ensures
        spec_u32_to_bytes(big, spec_u32_from_bytes(big, b)) == b,
{
    let (b3, b2, b1, b0) = if big { (b[0], b[1], b[2], b[3]) } else { (b[3], b[2], b[1], b[0]) };
    let n = (b3 as int * 0x1000000 + b2 as int * 0x10000 + b1 as int * 0x100 + b0 as int) as u32;
    assert((n / 0x1000000) as u8 == b3 && ((n / 0x10000) % 0x100) as u8 == b2 && ((n / 0x100) % 0x100) as u8 == b1
        && (n % 0x100) as u8 == b0) by (nonlinear_arith)
        requires
            n == b3 as int * 0x1000000 + b2 as int * 0x10000 + b1 as int * 0x100 + b0 as int,
    ;
    assert(spec_u32_to_bytes(big, spec_u32_from_bytes(big, b)) =~= b);
}

/// A byte order for multi-byte integers.
pub trait ByteOrder {
    /// `true` if the most significant byte comes first.
    spec fn is_big_endian() -> bool;

    /// Read a `u16` from `buf[at..at + 2]`.
    fn read_u16(buf: &[u8], at: usize) -> (r: u16)
        requires
            at + 2 <= buf@.len(),
        ensures
            r == spec_u16_from_bytes(Self::is_big_endian(), buf@.subrange(at as int, at + 2)),
    ;

    /// Read a `u32` from `buf[at..at + 4]`.
    fn read_u32(buf: &[u8], at: usize) -> (r: u32)
        requires
            at + 4 <= buf@.len(),
        ensures
            r == spec_u32_from_bytes(Self::is_big_endian(), buf@.subrange(at as int, at + 4)),
    ;

    /// Write `n` to `buf[at..at + 2]`.
    fn write_u16(buf: &mut [u8], at: usize, n: u16)
        requires
            at + 2 <= old(buf)@.len(),
        ensures
            final(buf)@ == spec_splice(old(buf)@, at as int, spec_u16_to_bytes(Self::is_big_endian(), n)),
    ;

    /// Write `n` to `buf[at..at + 4]`.
    fn write_u32(buf: &mut [u8], at: usize, n: u32)
        requires
            at + 4 <= old(buf)@.len(),
        ensures
            final(buf)@ == spec_splice(old(buf)@, at as int, spec_u32_to_bytes(Self::is_big_endian(), n)),
    ;
}

/// Most significant byte first (tag files).
pub struct BigEndian;

/// Least significant byte first (cache files).
pub struct LittleEndian;

/// Reads two bytes with `byteorder::BigEndian::read_u16`: the value with the first byte most significant.
#[verifier::external_body]
fn be_read_u16(buf: &[u8], at: usize) -> (r: u16)
    requires
        at + 2 <= buf@.len(),
    ensures
        r == spec_u16_from_bytes(true, buf@.subrange(at as int, at + 2)),
{
    <byteorder::BigEndian as byteorder::ByteOrder>::read_u16(&buf[at..])
}

/// Reads four bytes with `byteorder::BigEndian::read_u32`: the value with the first byte most significant.
#[verifier::external_body]
fn be_read_u32(buf: &[u8], at: usize) -> (r: u32)
    requires
        at + 4 <= buf@.len(),
    ensures
        r == spec_u32_from_bytes(true, buf@.subrange(at as int, at + 4)),
{
    <byteorder::BigEndian as byteorder::ByteOrder>::read_u32(&buf[at..])
}

/// Writes two bytes with `byteorder::BigEndian::write_u16`: most significant byte first, nothing else changed.
#[verifier::external_body]
fn be_write_u16(buf: &mut [u8], at: usize, n: u16)
    requires
        at + 2 <= old(buf)@.len(),
    ensures
        final(buf)@ == spec_splice(old(buf)@, at as int, spec_u16_to_bytes(true, n)),
{
    <byteorder::BigEndian as byteorder::ByteOrder>::write_u16(&mut buf[at..], n)
}

/// Writes four bytes with `byteorder::BigEndian::write_u32`: most significant byte first, nothing else changed.
#[verifier::external_body]
fn be_write_u32(buf: &mut [u8], at: usize, n: u32)
    requires
        at + 4 <= old(buf)@.len(),
    ensures
        final(buf)@ == spec_splice(old(buf)@, at as int, spec_u32_to_bytes(true, n)),
{
    <byteorder::BigEndian as byteorder::ByteOrder>::write_u32(&mut buf[at..], n)
}

/// Reads two bytes with `byteorder::LittleEndian::read_u16`: the value with the first byte least significant.
#[verifier::external_body]
fn le_read_u16(buf: &[u8], at: usize) -> (r: u16)
    requires
        at + 2 <= buf@.len(),
    ensures
        r == spec_u16_from_bytes(false, buf@.subrange(at as int, at + 2)),
{
    <byteorder::LittleEndian as byteorder::ByteOrder>::read_u16(&buf[at..])
}

/// Reads four bytes with `byteorder::LittleEndian::read_u32`: the value with the first byte least significant.
#[verifier::external_body]
fn le_read_u32(buf: &[u8], at: usize) -> (r: u32)
    requires
        at + 4 <= buf@.len(),
    ensures
        r == spec_u32_from_bytes(false, buf@.subrange(at as int, at + 4)),
{
    <byteorder::LittleEndian as byteorder::ByteOrder>::read_u32(&buf[at..])
}

/// Writes two bytes with `byteorder::LittleEndian::write_u16`: least significant byte first, nothing else changed.
#[verifier::external_body]
fn le_write_u16(buf: &mut [u8], at: usize, n: u16)
    requires
        at + 2 <= old(buf)@.len(),
    ensures
        final(buf)@ == spec_splice(old(buf)@, at as int, spec_u16_to_bytes(false, n)),
{
    <byteorder::LittleEndian as byteorder::ByteOrder>::write_u16(&mut buf[at..], n)
}

/// Writes four bytes with `byteorder::LittleEndian::write_u32`: least significant byte first, nothing else changed.
#[verifier::external_body]
fn le_write_u32(buf: &mut [u8], at: usize, n: u32)
    requires
        at + 4 <= old(buf)@.len(),
    ensures
        final(buf)@ == spec_splice(old(buf)@, at as int, spec_u32_to_bytes(false, n)),
{
    <byteorder::LittleEndian as byteorder::ByteOrder>::write_u32(&mut buf[at..], n)
}

impl ByteOrder for BigEndian {
    open spec fn is_big_endian() -> bool {
        true
    }

    fn read_u16(buf: &[u8], at: usize) -> (r: u16) {
        be_read_u16(buf, at)
    }

    fn read_u32(buf: &[u8], at: usize) -> (r: u32) {
        be_read_u32(buf, at)
    }

    fn write_u16(buf: &mut [u8], at: usize, n: u16) {
        be_write_u16(buf, at, n)
    }

    fn write_u32(buf: &mut [u8], at: usize, n: u32) {
        be_write_u32(buf, at, n)
    }
}

impl ByteOrder for LittleEndian {
    open spec fn is_big_endian() -> bool {
        false
    }

    fn read_u16(buf: &[u8], at: usize) -> (r: u16) {
        le_read_u16(buf, at)
    }

    fn read_u32(buf: &[u8], at: usize) -> (r: u32) {
        le_read_u32(buf, at)
    }

    fn write_u16(buf: &mut [u8], at: usize, n: u16) {
        le_write_u16(buf, at, n)
    }

    fn write_u32(buf: &mut [u8], at: usize, n: u32) {
        le_write_u32(buf, at, n)
    }
}

} // verus!
