//! Reading and writing tag data.

use vstd::prelude::*;
use vstd::string::StringExecFns;
use crate::endian::{ByteOrder, BigEndian, LittleEndian, spec_splice, spec_u16_from_bytes, spec_u16_to_bytes, spec_u32_from_bytes, spec_u32_to_bytes, lemma_u16_roundtrip, lemma_u32_roundtrip};
use crate::error::{Error, OverflowCheck, RinghopperResult};
use crate::map::{CacheMap, DomainType, MapReadError, MapView, spec_map_view, spec_view_data_at, spec_domain_name, spec_map_error_is};
use crate::text::{format_hex, spec_hex_padded};

verus! {

/// Maximum length for an array.
///
/// This is enforced by the [`SimpleTagData`] implementation of [`usize`].
pub const MAX_ARRAY_LENGTH: usize = 0xFFFFFFFF;

/// Result of checking that `size` bytes at `at` fit in `len` bytes: the end offset.
pub open spec fn spec_fits(size: int, at: int, len: int) -> RinghopperResult<usize> {
    if at + size > usize::MAX {
        Err(Error::SizeLimitExceeded)
    } else if at + size > len {
        Err(Error::TagParseFailure)
    } else {
        Ok((at + size) as usize)
    }
}

/// Check that `size` bytes at `at` fit in `vec_size` bytes, returning the end offset.
pub fn fits(size: usize, at: usize, vec_size: usize) -> (r: RinghopperResult<usize>)
    ensures
        r == spec_fits(size as int, at as int, vec_size as int),
{
    let end = at.add_overflow_checked(size)?;
    if end > vec_size {
        Err(Error::TagParseFailure)
    } else {
        Ok(end)
    }
}

/// Convert a size to a `u32`, failing with [`Error::ArrayLimitExceeded`] if it does not fit.
pub fn into_u32(size: usize) -> (r: RinghopperResult<u32>)
    ensures
        size <= u32::MAX ==> r == Ok::<u32, Error>(size as u32),
        size > u32::MAX ==> r == Err::<u32, Error>(Error::ArrayLimitExceeded),
{
    if size > 0xFFFFFFFFusize {
        Err(Error::ArrayLimitExceeded)
    } else {
        Ok(size as u32)
    }
}

/// Types with a fixed-size binary representation.
pub trait SimpleTagData: Sized {
    /// Size of the binary representation in bytes.
    spec fn spec_simple_size() -> nat;

    /// Reading a value at `at` from `data`.
    spec fn spec_read(big: bool, data: Seq<u8>, at: int, struct_end: int) -> RinghopperResult<Self>;

    /// Encode a value; `Err` where the value cannot be represented.
    spec fn spec_encode(self, big: bool) -> RinghopperResult<Seq<u8>>;

    /// Get the raw size of the data in bytes.
    fn simple_size() -> (r: usize)
        ensures
            r == Self::spec_simple_size(),
    ;

    /// Read a value from `data` at `at`.
    ///
    /// Errors if the data is out of bounds.
    fn read<B: ByteOrder>(data: &[u8], at: usize, struct_end: usize) -> (r: RinghopperResult<Self>)
        ensures
            r == Self::spec_read(B::is_big_endian(), data@, at as int, struct_end as int),
    ;

    /// Write the value to `data` at `at`.
    ///
    /// Only errors if the value cannot be represented (such as a [`usize`] above [`MAX_ARRAY_LENGTH`]).
    fn write<B: ByteOrder>(&self, data: &mut [u8], at: usize, struct_end: usize) -> (r: RinghopperResult<()>)
        requires
            at + Self::spec_simple_size() <= old(data)@.len(),
            at + Self::spec_simple_size() <= struct_end,
        ensures
            final(data)@.len() == old(data)@.len(),
            match self.spec_encode(B::is_big_endian()) {
                Ok(bytes) => r is Ok && final(data)@ == spec_splice(old(data)@, at as int, bytes),
                Err(e) => r == Err::<(), Error>(e) && final(data)@ == old(data)@,
            },
    ;
}

/// Reading `size` bytes at `at`: a bounds check against the data, then `decode` applied to the bytes.
pub open spec fn spec_read_bytes<T>(data: Seq<u8>, at: int, size: int, decode: spec_fn(Seq<u8>) -> T) -> RinghopperResult<T> {
    match spec_fits(size, at, data.len() as int) {
        Ok(end) => Ok(decode(data.subrange(at, end as int))),
        Err(e) => Err(e),
    }
}

/// Read the single byte at `at` after a bounds check.
fn read_byte(data: &[u8], at: usize) -> (r: RinghopperResult<u8>)
    ensures
        match spec_fits(1, at as int, data@.len() as int) {
            Ok(_) => r == Ok::<u8, Error>(data@[at as int]),
            Err(e) => r == Err::<u8, Error>(e),
        },
{
    fits(1, at, data.len())?;
    Ok(data[at])
}

impl SimpleTagData for u8 {
    open spec fn spec_simple_size() -> nat {
        1
    }

    open spec fn spec_read(big: bool, data: Seq<u8>, at: int, struct_end: int) -> RinghopperResult<u8> {
        spec_read_bytes(data, at, 1, |bytes: Seq<u8>| bytes[0])
    }

    open spec fn spec_encode(self, big: bool) -> RinghopperResult<Seq<u8>> {
        Ok(seq![self])
    }

    fn simple_size() -> (r: usize) {
        1
    }

    fn read<B: ByteOrder>(data: &[u8], at: usize, struct_end: usize) -> (r: RinghopperResult<u8>) {
        read_byte(data, at)
    }

    fn write<B: ByteOrder>(&self, data: &mut [u8], at: usize, struct_end: usize) -> (r: RinghopperResult<()>) {
        data[at] = *self;
        proof {
            assert(data@ =~= spec_splice(old(data)@, at as int, seq![*self]));
        }
        Ok(())
    }
}

impl SimpleTagData for i8 {
    open spec fn spec_simple_size() -> nat {
        1
    }

    open spec fn spec_read(big: bool, data: Seq<u8>, at: int, struct_end: int) -> RinghopperResult<i8> {
        spec_read_bytes(data, at, 1, |bytes: Seq<u8>| bytes[0] as i8)
    }

    open spec fn spec_encode(self, big: bool) -> RinghopperResult<Seq<u8>> {
        Ok(seq![self as u8])
    }

    fn simple_size() -> (r: usize) {
        1
    }

    fn read<B: ByteOrder>(data: &[u8], at: usize, struct_end: usize) -> (r: RinghopperResult<i8>) {
        let b = read_byte(data, at)?;
        Ok(b as i8)
    }

    fn write<B: ByteOrder>(&self, data: &mut [u8], at: usize, struct_end: usize) -> (r: RinghopperResult<()>) {
        data[at] = *self as u8;
        proof {
            assert(data@ =~= spec_splice(old(data)@, at as int, seq![*self as u8]));
        }
        Ok(())
    }
}

impl SimpleTagData for bool {
    open spec fn spec_simple_size() -> nat {
        1
    }

    open spec fn spec_read(big: bool, data: Seq<u8>, at: int, struct_end: int) -> RinghopperResult<bool> {
        spec_read_bytes(data, at, 1, |bytes: Seq<u8>| bytes[0] != 0)
    }

    open spec fn spec_encode(self, big: bool) -> RinghopperResult<Seq<u8>> {
        Ok(seq![if self { 1u8 } else { 0u8 }])
    }

    fn simple_size() -> (r: usize) {
        1
    }

    fn read<B: ByteOrder>(data: &[u8], at: usize, struct_end: usize) -> (r: RinghopperResult<bool>) {
        let b = read_byte(data, at)?;
        Ok(b != 0)
    }

    fn write<B: ByteOrder>(&self, data: &mut [u8], at: usize, struct_end: usize) -> (r: RinghopperResult<()>) {
        let b: u8 = if *self { 1 } else { 0 };
        data[at] = b;
        proof {
            assert(data@ =~= spec_splice(old(data)@, at as int, seq![b]));
        }
        Ok(())
    }
}

impl SimpleTagData for u16 {
    open spec fn spec_simple_size() -> nat {
        2
    }

    open spec fn spec_read(big: bool, data: Seq<u8>, at: int, struct_end: int) -> RinghopperResult<u16> {
        spec_read_bytes(data, at, 2, |bytes: Seq<u8>| spec_u16_from_bytes(big, bytes))
    }

    open spec fn spec_encode(self, big: bool) -> RinghopperResult<Seq<u8>> {
        Ok(spec_u16_to_bytes(big, self))
    }

    fn simple_size() -> (r: usize) {
        2
    }

    fn read<B: ByteOrder>(data: &[u8], at: usize, struct_end: usize) -> (r: RinghopperResult<u16>) {
        let end = fits(2, at, data.len())?;
        proof {
            assert(end == at + 2);
        }
        Ok(B::read_u16(data, at))
    }

    fn write<B: ByteOrder>(&self, data: &mut [u8], at: usize, struct_end: usize) -> (r: RinghopperResult<()>) {
        B::write_u16(data, at, *self);
        proof {
            lemma_u16_roundtrip(B::is_big_endian(), *self);
        }
        Ok(())
    }
}

impl SimpleTagData for i16 {
    open spec fn spec_simple_size() -> nat {
        2
    }

    open spec fn spec_read(big: bool, data: Seq<u8>, at: int, struct_end: int) -> RinghopperResult<i16> {
        spec_read_bytes(data, at, 2, |bytes: Seq<u8>| spec_u16_from_bytes(big, bytes) as i16)
    }

    open spec fn spec_encode(self, big: bool) -> RinghopperResult<Seq<u8>> {
        Ok(spec_u16_to_bytes(big, self as u16))
    }

    fn simple_size() -> (r: usize) {
        2
    }

    fn read<B: ByteOrder>(data: &[u8], at: usize, struct_end: usize) -> (r: RinghopperResult<i16>) {
        let end = fits(2, at, data.len())?;
        proof {
            assert(end == at + 2);
        }
        Ok(B::read_u16(data, at) as i16)
    }

    fn write<B: ByteOrder>(&self, data: &mut [u8], at: usize, struct_end: usize) -> (r: RinghopperResult<()>) {
        B::write_u16(data, at, *self as u16);
        proof {
            lemma_u16_roundtrip(B::is_big_endian(), *self as u16);
        }
        Ok(())
    }
}

impl SimpleTagData for u32 {
    open spec fn spec_simple_size() -> nat {
        4
    }

    open spec fn spec_read(big: bool, data: Seq<u8>, at: int, struct_end: int) -> RinghopperResult<u32> {
        spec_read_bytes(data, at, 4, |bytes: Seq<u8>| spec_u32_from_bytes(big, bytes))
    }

    open spec fn spec_encode(self, big: bool) -> RinghopperResult<Seq<u8>> {
        Ok(spec_u32_to_bytes(big, self))
    }

    fn simple_size() -> (r: usize) {
        4
    }

    fn read<B: ByteOrder>(data: &[u8], at: usize, struct_end: usize) -> (r: RinghopperResult<u32>) {
        match fits(4, at, data.len()) {
            Ok(end) => {
                let v = B::read_u32(data, at);
                assert(<u32 as SimpleTagData>::spec_read(B::is_big_endian(), data@, at as int, struct_end as int)
                    == Ok::<u32, Error>(v));
                Ok(v)
            },
            Err(e) => Err(e),
        }
    }

    fn write<B: ByteOrder>(&self, data: &mut [u8], at: usize, struct_end: usize) -> (r: RinghopperResult<()>) {
        B::write_u32(data, at, *self);
        proof {
            lemma_u32_roundtrip(B::is_big_endian(), *self);
        }
        Ok(())
    }
}

impl SimpleTagData for i32 {
    open spec fn spec_simple_size() -> nat {
        4
    }

    open spec fn spec_read(big: bool, data: Seq<u8>, at: int, struct_end: int) -> RinghopperResult<i32> {
        spec_read_bytes(data, at, 4, |bytes: Seq<u8>| spec_u32_from_bytes(big, bytes) as i32)
    }

    open spec fn spec_encode(self, big: bool) -> RinghopperResult<Seq<u8>> {
        Ok(spec_u32_to_bytes(big, self as u32))
    }

    fn simple_size() -> (r: usize) {
        4
    }

    fn read<B: ByteOrder>(data: &[u8], at: usize, struct_end: usize) -> (r: RinghopperResult<i32>) {
        let end = fits(4, at, data.len())?;
        proof {
            assert(end == at + 4);
        }
        Ok(B::read_u32(data, at) as i32)
    }

    fn write<B: ByteOrder>(&self, data: &mut [u8], at: usize, struct_end: usize) -> (r: RinghopperResult<()>) {
        B::write_u32(data, at, *self as u32);
        proof {
            lemma_u32_roundtrip(B::is_big_endian(), *self as u32);
        }
        Ok(())
    }
}

/// Sizes are stored as 32-bit integers; sizes above [`MAX_ARRAY_LENGTH`] cannot be written.
impl SimpleTagData for usize {
    open spec fn spec_simple_size() -> nat {
        4
    }

    open spec fn spec_read(big: bool, data: Seq<u8>, at: int, struct_end: int) -> RinghopperResult<usize> {
        spec_read_bytes(data, at, 4, |bytes: Seq<u8>| spec_u32_from_bytes(big, bytes) as usize)
    }

    open spec fn spec_encode(self, big: bool) -> RinghopperResult<Seq<u8>> {
        if self > MAX_ARRAY_LENGTH {
            Err(Error::ArrayLimitExceeded)
        } else {
            Ok(spec_u32_to_bytes(big, self as u32))
        }
    }

    fn simple_size() -> (r: usize) {
        4
    }

    fn read<B: ByteOrder>(data: &[u8], at: usize, struct_end: usize) -> (r: RinghopperResult<usize>) {
        let end = fits(4, at, data.len())?;
        proof {
            assert(end == at + 4);
        }
        Ok(B::read_u32(data, at) as usize)
    }

    fn write<B: ByteOrder>(&self, data: &mut [u8], at: usize, struct_end: usize) -> (r: RinghopperResult<()>) {
        if *self > MAX_ARRAY_LENGTH {
            return Err(Error::ArrayLimitExceeded);
        }
        B::write_u32(data, at, *self as u32);
        proof {
            lemma_u32_roundtrip(B::is_big_endian(), *self as u32);
        }
        Ok(())
    }
}

/// Tag data that can be read from and written to tag files.
///
/// Tag files are big endian. Fixed-size data is stored in the struct; variable-size data (such as the contents of
/// a reflexive or a path) is stored after it, at the "extra data cursor".
pub trait TagData: Sized {
    /// What a value holds, as far as a tag file can tell.
    type Model;

    /// The model of a value; nothing is known of it unless the implementation says.
    closed spec fn spec_model(&self) -> Self::Model {
        arbitrary()
    }

    /// Size of the data in the struct, in bytes; nothing is known of it unless the implementation says.
    closed spec fn spec_size() -> nat {
        arbitrary()
    }

    /// Reading from a tag file: the model of the value read, and the new extra data cursor; nothing is known of it
    /// unless the implementation says.
    closed spec fn spec_read_tag(data: Seq<u8>, at: int, struct_end: int, cursor: int) -> RinghopperResult<(Self::Model, int)> {
        arbitrary()
    }

    /// Writing a value with the given model to a tag file: the resulting tag file bytes; nothing is known of it unless
    /// the implementation says.
    closed spec fn spec_write_tag(model: Self::Model, data: Seq<u8>, at: int, struct_end: int) -> RinghopperResult<Seq<u8>> {
        arbitrary()
    }

    /// Reading from a map: the model of the value read; nothing is known of it unless the implementation says.
    closed spec fn spec_read_map(map: MapView, address: int, domain: DomainType) -> Result<Self::Model, MapReadError> {
        arbitrary()
    }

    /// Get the size of the tag data.
    fn size() -> (r: usize)
        ensures
            r == Self::spec_size(),
    ;

    /// Read data from the tag.
    ///
    /// - `data` is the entire tag.
    /// - `at` is the position of the data to read.
    /// - `struct_end` is the end of the struct.
    /// - `extra_data_cursor` is the cursor where extra data (e.g. strings) may be read
    ///
    /// Errors if the data is out of bounds.
    fn read_from_tag_file(data: &[u8], at: usize, struct_end: usize, extra_data_cursor: &mut usize) -> (r: RinghopperResult<Self>)
        ensures
            match Self::spec_read_tag(data@, at as int, struct_end as int, *old(extra_data_cursor) as int) {
                Ok((m, c)) => (r matches Ok(v) && v.spec_model() == m) && *final(extra_data_cursor) == c,
                Err(e) => r == Err::<Self, Error>(e),
            },
    ;

    /// Write data to the tag.
    ///
    /// - `data` is the entire tag.
    /// - `at` is the position of the data to write.
    /// - `struct_end` is the end of the struct.
    ///
    /// This can get an error if some form of invariant is violated, such as a size being greater than [`MAX_ARRAY_LENGTH`].
    fn write_to_tag_file(&self, data: &mut Vec<u8>, at: usize, struct_end: usize) -> (r: RinghopperResult<()>)
        requires
            at + Self::spec_size() <= old(data)@.len(),
            at + Self::spec_size() <= struct_end,
        ensures
            final(data)@.len() >= old(data)@.len(),
            match Self::spec_write_tag(self.spec_model(), old(data)@, at as int, struct_end as int) {
                Ok(d) => r is Ok && final(data)@ == d,
                Err(e) => r == Err::<(), Error>(e),
            },
    ;

    /// Read data from the map.
    fn read_from_map<M: CacheMap>(map: &M, address: usize, domain_type: &DomainType) -> (r: RinghopperResult<Self>)
        ensures
            match Self::spec_read_map(spec_map_view(map), address as int, *domain_type) {
                Ok(m) => r matches Ok(v) && v.spec_model() == m,
                Err(e) => r matches Err(x) && spec_map_error_is(x, e),
            },
    ;
}

impl<T: SimpleTagData> TagData for T {
    type Model = T;

    open spec fn spec_model(&self) -> T {
        *self
    }

    open spec fn spec_size() -> nat {
        T::spec_simple_size()
    }

    open spec fn spec_read_tag(data: Seq<u8>, at: int, struct_end: int, cursor: int) -> RinghopperResult<(T, int)> {
        match T::spec_read(true, data, at, struct_end) {
            Ok(v) => Ok((v, cursor)),
            Err(e) => Err(e),
        }
    }

    open spec fn spec_write_tag(model: T, data: Seq<u8>, at: int, struct_end: int) -> RinghopperResult<Seq<u8>> {
        match model.spec_encode(true) {
            Ok(bytes) => Ok(spec_splice(data, at, bytes)),
            Err(e) => Err(e),
        }
    }

    /// The bytes are read in little endian, as maps store them.
    open spec fn spec_read_map(map: MapView, address: int, domain: DomainType) -> Result<T, MapReadError> {
        spec_read_simple_map::<T>(map, address, domain)
    }

    fn size() -> (r: usize) {
        T::simple_size()
    }

    fn read_from_tag_file(data: &[u8], at: usize, struct_end: usize, extra_data_cursor: &mut usize) -> (r: RinghopperResult<T>) {
        T::read::<BigEndian>(data, at, struct_end)
    }

    fn write_to_tag_file(&self, data: &mut Vec<u8>, at: usize, struct_end: usize) -> (r: RinghopperResult<()>) {
        self.write::<BigEndian>(data.as_mut_slice(), at, struct_end)
    }

    fn read_from_map<M: CacheMap>(map: &M, address: usize, domain_type: &DomainType) -> (r: RinghopperResult<T>) {
        let size = T::simple_size();
        let data = match map.get_data_at_address(address, domain_type, size) {
            Some(n) => n,
            None => {
                let mut m = "cannot read 0x".to_owned();
                m.append(format_hex(size, 4).as_str());
                m.append(" bytes from ");
                m.append(domain_type.name().as_str());
                return Err(Error::MapDataOutOfBounds(m));
            },
        };
        T::read::<LittleEndian>(data, 0, data.len())
    }
}

/// Writing a value whose model is `m` to a tag file puts `s` in its struct and appends `e`, wherever it is written;
/// and reading finds `m` back from those bytes alone, wherever the extra data cursor finds `e`.
pub open spec fn spec_tag_frame<T: TagData>(m: T::Model, s: Seq<u8>, e: Seq<u8>) -> bool {
    &&& s.len() == T::spec_size()
    &&& forall|d: Seq<u8>, o: int, end: int|
        0 <= o && end == o + s.len() && end <= d.len() && d.len() + e.len() <= usize::MAX ==> #[trigger] T::spec_write_tag(
            m,
            d,
            o,
            end,
        ) == Ok::<Seq<u8>, Error>(spec_splice(d, o, s) + e)
    &&& forall|x: Seq<u8>, o: int, end: int, c: int|
        0 <= o && end == o + s.len() && end <= x.len() && 0 <= c && c + e.len() <= x.len() && x.len() <= usize::MAX
            && x.subrange(o, end) == s && x.subrange(c, c + e.len()) == e ==> #[trigger] T::spec_read_tag(x, o, end, c)
            == Ok::<(T::Model, int), Error>((m, c + e.len()))
}

/// A value whose model is `m` reads back from a tag file as it was written, as [`spec_tag_frame`] says.
pub open spec fn spec_roundtrips<T: TagData>(m: T::Model) -> bool {
    exists|p: (Seq<u8>, Seq<u8>)| spec_tag_frame::<T>(m, p.0, p.1)
}

/// The struct bytes and extra data that a value whose model is `m` is written as, where it reads back.
pub open spec fn spec_frame_parts<T: TagData>(m: T::Model) -> (Seq<u8>, Seq<u8>) {
    choose|p: (Seq<u8>, Seq<u8>)| spec_tag_frame::<T>(m, p.0, p.1)
}

/// Reading simple data from a map: its bytes, read in little endian.
pub open spec fn spec_read_simple_map<T: SimpleTagData>(map: MapView, address: int, domain: DomainType) -> Result<T, MapReadError> {
    match spec_view_data_at(map, address, domain, T::spec_simple_size() as int) {
        Some(b) => match T::spec_read(false, b, 0, b.len() as int) {
            Ok(v) => Ok(v),
            Err(e) => Err(MapReadError::Failed(e)),
        },
        None => Err(MapReadError::OutOfBounds(spec_cannot_read_message(T::spec_simple_size(), domain))),
    }
}

/// The message for `size` bytes of simple data that are not in a domain.
pub open spec fn spec_cannot_read_message(size: nat, domain: DomainType) -> Seq<char> {
    "cannot read 0x"@ + spec_hex_padded(size, 4) + " bytes from "@ + spec_domain_name(domain)
}

} // verus!
