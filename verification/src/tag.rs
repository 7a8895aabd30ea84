//! Functionality for parsing tags as whole as well as tag files.

use vstd::prelude::*;
use crate::crc32::{CRC32, spec_crc_bytes};
use crate::endian::{ByteOrder, spec_splice, spec_u32_from_bytes, spec_u16_from_bytes, spec_u16_to_bytes, spec_u32_to_bytes, lemma_u16_roundtrip, lemma_u32_roundtrip};
use crate::error::{Error, RinghopperResult};
use crate::parse::{SimpleTagData, TagData, spec_read_bytes, spec_roundtrips, spec_frame_parts};
use crate::primitive::data::{ID, Padding, spec_u32_at, spec_zeros, spec_read_padding, lemma_splice_concat, lemma_id_view_injective, lemma_id_exists};
use crate::primitive::group::{TagGroup, spec_group_fourcc, law_fourcc_roundtrip};
use crate::primitive::string32::String32;

verus! {

/// If CRC32 is set to this, then disable CRC32 checks.
pub const IGNORED_CRC32: u32 = 0xFFFFFFFF;

/// Required to be set for the tag header.
pub const BLAM_FOURCC: u32 = 0x626C616D;

/// Size of the tag file header.
pub const TAG_FILE_HEADER_SIZE: usize = 0x40;

/// Used for defining information for saving structs into tag files.
pub trait PrimaryTagStruct: TagData {
    /// The tag group of the tag struct; nothing is known of it unless the implementation says.
    closed spec fn spec_tag_group() -> TagGroup {
        arbitrary()
    }

    /// The version of the tag struct's tag file; nothing is known of it unless the implementation says.
    closed spec fn spec_tag_version() -> u16 {
        arbitrary()
    }

    /// Get the tag group of the tag struct.
    fn group() -> (r: TagGroup)
        ensures
            r == Self::spec_tag_group(),
    ;

    /// Get the version of the tag struct's tag file.
    fn version() -> (r: u16)
        ensures
            r == Self::spec_tag_version(),
    ;
}

/// Structure for identifying and validating a tag file, stored at the beginning of all tag files.
#[derive(Copy, Clone, PartialEq, Eq, Debug)]
pub struct TagFileHeader {
    /// Some ID value; not set on most tags, and always unused.
    pub id: ID,

    /// Some string value; not set on most tags, and always unused.
    pub string: String32,

    /// Tag group of the tag.
    pub group: TagGroup,

    /// CRC32 of all data following the header; set to [`IGNORED_CRC32`] to disable checks.
    pub crc32: u32,

    /// Size of the header. Equal to 0x40.
    pub header_size: u32,

    /// Unused.
    pub padding: Padding,

    /// Version of the tag struct.
    pub version: u16,

    /// Always set to 255.
    pub u16_255: u16,

    /// `blam` FourCC for identifying that it is a tag file; must be equal to [`BLAM_FOURCC`].
    pub blam_fourcc: u32,
}

/// Reading a big or little endian `u16` at `at`.
pub open spec fn spec_u16_at(big: bool, data: Seq<u8>, at: int) -> RinghopperResult<u16> {
    spec_read_bytes(data, at, 2, |b: Seq<u8>| spec_u16_from_bytes(big, b))
}

/// The ID of a header: one that cannot be read is the null ID.
pub open spec fn spec_header_id(big: bool, data: Seq<u8>, at: int) -> ID {
    match spec_u32_at(big, data, at) {
        Ok(v) => choose|id: ID| id@ == v,
        Err(_) => choose|id: ID| id@ == 0xFFFFFFFFu32,
    }
}

/// The bytes of a header written by this library for a tag of `group` and `version` whose data has `crc`: no ID, an
/// empty string, a header size of 0x40 and the `blam` FourCC.
pub open spec fn spec_new_header_bytes(group: TagGroup, version: u16, crc: u32) -> Seq<u8> {
    spec_u32_to_bytes(true, 0) + spec_zeros(32) + spec_u32_to_bytes(true, spec_group_fourcc(group)) + spec_u32_to_bytes(true, crc)
        + spec_u32_to_bytes(true, 0x40) + spec_zeros(8) + spec_u16_to_bytes(true, version) + spec_u16_to_bytes(true, 0xFF)
        + spec_u32_to_bytes(true, BLAM_FOURCC)
}

impl SimpleTagData for TagFileHeader {
    open spec fn spec_simple_size() -> nat {
        0x40
    }

    /// The fields in order; the ID is null where it cannot be read. An offset so large that the end of the header
    /// cannot be addressed fails with [`Error::SizeLimitExceeded`].
    open spec fn spec_read(big: bool, data: Seq<u8>, at: int, struct_end: int) -> RinghopperResult<TagFileHeader> {
        if at + 0x40 > usize::MAX {
            Err(Error::SizeLimitExceeded)
        } else {
        match String32::spec_read(big, data, at + 0x04, struct_end) {
            Err(e) => Err(e),
            Ok(string) => match TagGroup::spec_read(big, data, at + 0x24, struct_end) {
                Err(e) => Err(e),
                Ok(group) => match spec_u32_at(big, data, at + 0x28) {
                    Err(e) => Err(e),
                    Ok(crc32) => match spec_u32_at(big, data, at + 0x2C) {
                        Err(e) => Err(e),
                        Ok(header_size) => match spec_read_padding(8, at + 0x30, struct_end) {
                            Err(e) => Err(e),
                            Ok(padding) => match spec_u16_at(big, data, at + 0x38) {
                                Err(e) => Err(e),
                                Ok(version) => match spec_u16_at(big, data, at + 0x3A) {
                                    Err(e) => Err(e),
                                    Ok(u16_255) => match spec_u32_at(big, data, at + 0x3C) {
                                        Err(e) => Err(e),
                                        Ok(blam_fourcc) => Ok(TagFileHeader {
                                            id: spec_header_id(big, data, at),
                                            string,
                                            group,
                                            crc32,
                                            header_size,
                                            padding,
                                            version,
                                            u16_255,
                                            blam_fourcc,
                                        }),
                                    },
                                },
                            },
                        },
                    },
                },
            },
        }
        }
    }

    /// A null ID is written as zero.
    open spec fn spec_encode(self, big: bool) -> RinghopperResult<Seq<u8>> {
        Ok(spec_u32_to_bytes(big, if self.id@ == 0xFFFFFFFF { 0 } else { self.id@ }) + self.string@ + spec_u32_to_bytes(
            big,
            spec_group_fourcc(self.group),
        ) + spec_u32_to_bytes(big, self.crc32) + spec_u32_to_bytes(big, self.header_size) + spec_zeros(8)
            + spec_u16_to_bytes(big, self.version) + spec_u16_to_bytes(big, self.u16_255) + spec_u32_to_bytes(
            big,
            self.blam_fourcc,
        ))
    }

    fn simple_size() -> (r: usize) {
        0x40
    }

    fn read<B: ByteOrder>(data: &[u8], at: usize, struct_end: usize) -> (r: RinghopperResult<TagFileHeader>) {
        let id = match ID::read::<B>(data, at, struct_end) {
            Ok(id) => id,
            Err(_) => ID::null(),
        };
        proof {
            let want = match spec_u32_at(B::is_big_endian(), data@, at as int) {
                Ok(v) => v,
                Err(_) => 0xFFFFFFFFu32,
            };
            lemma_id_exists(want);
            lemma_id_view_injective(id);
        }
        if at > usize::MAX - 0x40 {
            return Err(Error::SizeLimitExceeded);
        }
        let string = String32::read::<B>(data, at + 0x04, struct_end)?;
        let group = TagGroup::read::<B>(data, at + 0x24, struct_end)?;
        let crc32 = u32::read::<B>(data, at + 0x28, struct_end)?;
        let header_size = u32::read::<B>(data, at + 0x2C, struct_end)?;
        let padding = Padding::read(8, at + 0x30, struct_end)?;
        let version = u16::read::<B>(data, at + 0x38, struct_end)?;
        let u16_255 = u16::read::<B>(data, at + 0x3A, struct_end)?;
        let blam_fourcc = u32::read::<B>(data, at + 0x3C, struct_end)?;
        Ok(TagFileHeader { id, string, group, crc32, header_size, padding, version, u16_255, blam_fourcc })
    }

    fn write<B: ByteOrder>(&self, data: &mut [u8], at: usize, struct_end: usize) -> (r: RinghopperResult<()>) {
        let ghost d0 = data@;
        let ghost big = B::is_big_endian();
        proof {
            use_type_invariant(&self.string);
            self.string.lemma_well_formed();
        }
        let raw_id: u32 = if self.id.is_null() {
            0
        } else {
            self.id.as_u32()
        };
        proof {
            lemma_u32_roundtrip(big, raw_id);
            lemma_u32_roundtrip(big, spec_group_fourcc(self.group));
            lemma_u32_roundtrip(big, self.crc32);
            lemma_u32_roundtrip(big, self.header_size);
            lemma_u16_roundtrip(big, self.version);
            lemma_u16_roundtrip(big, self.u16_255);
            lemma_u32_roundtrip(big, self.blam_fourcc);
        }
        raw_id.write::<B>(data, at, struct_end)?;
        self.string.write::<B>(data, at + 0x04, struct_end)?;
        self.group.write::<B>(data, at + 0x24, struct_end)?;
        self.crc32.write::<B>(data, at + 0x28, struct_end)?;
        self.header_size.write::<B>(data, at + 0x2C, struct_end)?;
        Padding::write(8, data, at + 0x30);
        self.version.write::<B>(data, at + 0x38, struct_end)?;
        self.u16_255.write::<B>(data, at + 0x3A, struct_end)?;
        self.blam_fourcc.write::<B>(data, at + 0x3C, struct_end)?;
        proof {
            let p1 = spec_u32_to_bytes(big, raw_id);
            let p2 = self.string@;
            let p3 = spec_u32_to_bytes(big, spec_group_fourcc(self.group));
            let p4 = spec_u32_to_bytes(big, self.crc32);
            let p5 = spec_u32_to_bytes(big, self.header_size);
            let p6 = spec_zeros(8);
            let p7 = spec_u16_to_bytes(big, self.version);
            let p8 = spec_u16_to_bytes(big, self.u16_255);
            let p9 = spec_u32_to_bytes(big, self.blam_fourcc);
            lemma_splice_concat(d0, at as int, p1, p2);
            lemma_splice_concat(d0, at as int, p1 + p2, p3);
            lemma_splice_concat(d0, at as int, p1 + p2 + p3, p4);
            lemma_splice_concat(d0, at as int, p1 + p2 + p3 + p4, p5);
            lemma_splice_concat(d0, at as int, p1 + p2 + p3 + p4 + p5, p6);
            lemma_splice_concat(d0, at as int, p1 + p2 + p3 + p4 + p5 + p6, p7);
            lemma_splice_concat(d0, at as int, p1 + p2 + p3 + p4 + p5 + p6 + p7, p8);
            lemma_splice_concat(d0, at as int, p1 + p2 + p3 + p4 + p5 + p6 + p7 + p8, p9);
        }
        Ok(())
    }
}

/// `true` if a header is valid: it has the `blam` FourCC, 255 where it belongs, and a header size of 0x40.
pub open spec fn spec_header_valid(h: TagFileHeader) -> bool {
    h.blam_fourcc == BLAM_FOURCC && h.u16_255 == 0x00FF && h.header_size == 0x40
}

impl TagFileHeader {
    /// Return `Ok(())` if the header is valid.
    ///
    /// Return `Err(Error::InvalidTagFile)` if the header is not valid.
    pub fn validate(&self) -> (r: RinghopperResult<()>)
        ensures
            spec_header_valid(*self) ==> r is Ok,
            !spec_header_valid(*self) ==> r == Err::<(), Error>(Error::InvalidTagFile),
    {
        if self.blam_fourcc == BLAM_FOURCC && self.u16_255 == 0x00FF && self.header_size as usize == 0x40 {
            Ok(())
        } else {
            Err(Error::InvalidTagFile)
        }
    }

    /// Return `Ok(())` if the group is correct.
    ///
    /// Returns `Err(Error::TagHeaderGroupTypeMismatch)` if the type is wrong, and `Err(Error::TagHeaderGroupVersionMismatch)` if the
    /// version is wrong but the type is correct.
    pub fn verify_group_matches<T: PrimaryTagStruct>(&self) -> (r: RinghopperResult<()>)
        ensures
            r == spec_verify_group::<T>(*self),
    {
        if self.group != T::group() {
            return Err(Error::TagHeaderGroupTypeMismatch);
        }
        if self.version != T::version() {
            return Err(Error::TagHeaderGroupVersionMismatch);
        }
        Ok(())
    }
}

/// Checking a header against a tag struct: its group first, then its version.
pub open spec fn spec_verify_group<T: PrimaryTagStruct>(h: TagFileHeader) -> RinghopperResult<()> {
    if h.group != T::spec_tag_group() {
        Err(Error::TagHeaderGroupTypeMismatch)
    } else if h.version != T::spec_tag_version() {
        Err(Error::TagHeaderGroupVersionMismatch)
    } else {
        Ok(())
    }
}

/// Determine how strict parsing should be.
///
/// In all cases, out-of-bounds data cannot be parsed. However, allowing data with bad checksums to be parsed can be enabled, if desired.
#[derive(Copy, Clone, Default, PartialEq, Eq, Structural, Debug)]
pub enum ParseStrictness {
    /// Require the CRC32 to match; should be used by default.
    #[default]
    Strict,

    /// Allow the CRC32 to mismatch; should only be used if accessing potentially broken tags is necessary.
    Relaxed,
}

/// Checking the CRC32 of the data after a header: it must match under strict parsing, unless the header asks to
/// ignore it.
pub open spec fn spec_check_crc32(h: TagFileHeader, after: Seq<u8>, strictness: ParseStrictness) -> RinghopperResult<()> {
    if strictness == ParseStrictness::Strict && h.crc32 != IGNORED_CRC32 && spec_crc_bytes(0xFFFFFFFF, after) != h.crc32 {
        Err(Error::ChecksumMismatch)
    } else {
        Ok(())
    }
}

/// Loading a tag file: its header, which must be valid, and the data after it, whose CRC32 is checked.
pub open spec fn spec_load_header_and_data(file: Seq<u8>, strictness: ParseStrictness) -> RinghopperResult<(TagFileHeader, Seq<u8>)> {
    match TagFileHeader::spec_read(true, file, 0, 0x40) {
        Err(e) => Err(e),
        Ok(h) => if !spec_header_valid(h) {
            Err(Error::InvalidTagFile)
        } else {
            let after = file.subrange(0x40, file.len() as int);
            match spec_check_crc32(h, after, strictness) {
                Err(e) => Err(e),
                Ok(_) => Ok((h, after)),
            }
        },
    }
}

/// Reading a tag of type `T` from a tag file: the model of the tag. All data after the header must be used.
pub open spec fn spec_read_tag_file<T: PrimaryTagStruct>(file: Seq<u8>, strictness: ParseStrictness) -> RinghopperResult<T::Model> {
    match spec_load_header_and_data(file, strictness) {
        Err(e) => Err(e),
        Ok((h, after)) => match spec_verify_group::<T>(h) {
            Err(e) => Err(e),
            Ok(_) => match T::spec_read_tag(after, 0, T::spec_size() as int, T::spec_size() as int) {
                Err(e) => Err(e),
                Ok((m, c)) => if c != after.len() {
                    Err(Error::TagParseFailure)
                } else {
                    Ok(m)
                },
            },
        },
    }
}

/// Writing a tag of type `T` with model `m` to a tag file: the tag written after a zeroed header space, then the
/// header with the CRC32 of everything after it.
pub open spec fn spec_write_tag_file<T: PrimaryTagStruct>(m: T::Model) -> RinghopperResult<Seq<u8>> {
    let capacity = 0x40 + T::spec_size();
    match T::spec_write_tag(m, spec_zeros(capacity as nat), 0x40, capacity as int) {
        Err(e) => Err(e),
        Ok(d) => Ok(spec_splice(
            d,
            0,
            spec_new_header_bytes(
                T::spec_tag_group(),
                T::spec_tag_version(),
                spec_crc_bytes(0xFFFFFFFF, d.subrange(0x40, d.len() as int)),
            ),
        )),
    }
}

/// Methods for handling tag files.
pub struct TagFile {}

impl TagFile {
    /// Encode the tag data into tag file format.
    ///
    /// This returns a serialized byte array that can be loaded back with [`TagFile::read_tag_from_file_buffer`] or with other tools and libraries when stored as a file.
    ///
    /// Returns `Err` if the tag is unable to be represented in tag format, such as if 32-bit array limits are exceeded.
    pub fn to_tag_file<T: PrimaryTagStruct>(tag_data: &T) -> (r: RinghopperResult<Vec<u8>>)
        requires
            0x40 + T::spec_size() <= usize::MAX,
        ensures
            match spec_write_tag_file::<T>(tag_data.spec_model()) {
                Ok(d) => r matches Ok(v) && v@ == d,
                Err(e) => r == Err::<Vec<u8>, Error>(e),
            },
            r matches Ok(v) ==> v@.len() >= 0x40 + T::spec_size() && v@.subrange(0, 0x40) == spec_new_header_bytes(
                T::spec_tag_group(),
                T::spec_tag_version(),
                spec_crc_bytes(0xFFFFFFFF, v@.subrange(0x40, v@.len() as int)),
            ),
    {
        let header_len: usize = 0x40;
        let tag_file_len = T::size();
        let capacity = header_len + tag_file_len;
        let mut data: Vec<u8> = Vec::new();
        let mut k: usize = 0;
        while k < capacity
            invariant
                k <= capacity,
                data@ == spec_zeros(k as nat),
            decreases capacity - k,
        {
            data.push(0);
            proof {
                assert(data@ =~= spec_zeros((k + 1) as nat));
            }
            k = k + 1;
        }
        tag_data.write_to_tag_file(&mut data, header_len, capacity)?;
        let ghost d = data@;
        let mut crc32 = CRC32::new();
        crc32.update(vstd::slice::slice_subrange(data.as_slice(), header_len, data.len()));
        let new_header = TagFileHeader {
            blam_fourcc: BLAM_FOURCC,
            crc32: crc32.crc(),
            group: T::group(),
            header_size: header_len as u32,
            version: T::version(),
            u16_255: 0x00FF,
            string: String32::default(),
            id: ID::default(),
            padding: Padding {},
        };
        match new_header.write::<crate::endian::BigEndian>(data.as_mut_slice(), 0, header_len) {
            Ok(()) => {},
            Err(e) => return Err(e),
        }
        proof {
            assert(new_header.spec_encode(true) == Ok::<Seq<u8>, Error>(
                spec_new_header_bytes(T::spec_tag_group(), T::spec_tag_version(), new_header.crc32),
            ));
            let hb = spec_new_header_bytes(T::spec_tag_group(), T::spec_tag_version(), new_header.crc32);
            lemma_u32_roundtrip(true, 0);
            lemma_u32_roundtrip(true, new_header.crc32);
            lemma_u32_roundtrip(true, spec_group_fourcc(T::spec_tag_group()));
            lemma_u32_roundtrip(true, 0x40);
            lemma_u32_roundtrip(true, BLAM_FOURCC);
            lemma_u16_roundtrip(true, T::spec_tag_version());
            lemma_u16_roundtrip(true, 0xFF);
            assert(hb.len() == 0x40);
            assert(data@.subrange(0, 0x40) =~= hb);
            assert(data@.subrange(0x40, data@.len() as int) =~= d.subrange(0x40, d.len() as int));
        }
        Ok(data)
    }

    fn validate_crc32(header: &TagFileHeader, data_after_header: &[u8], strictness: ParseStrictness) -> (r: RinghopperResult<()>)
        ensures
            r == spec_check_crc32(*header, data_after_header@, strictness),
    {
        let actual_crc32 = if header.crc32 == IGNORED_CRC32 {
            None
        } else {
            let mut crc32 = CRC32::new();
            crc32.update(data_after_header);
            Some(crc32.crc())
        };
        match strictness {
            ParseStrictness::Relaxed => {},
            ParseStrictness::Strict => {
                if let Some(c) = actual_crc32 {
                    if c != header.crc32 {
                        return Err(Error::ChecksumMismatch);
                    }
                }
            },
        }
        Ok(())
    }

    /// Returns the header and everything after the header without parsing the actual tag  data.
    ///
    /// Return `Err` if parsing the header fails.
    pub fn load_header_and_data(file: &[u8], strictness: ParseStrictness) -> (r: RinghopperResult<(TagFileHeader, &[u8])>)
        ensures
            match spec_load_header_and_data(file@, strictness) {
                Ok((h, after)) => r matches Ok((rh, ra)) && rh == h && ra@ == after,
                Err(e) => r matches Err(re) && re == e,
            },
    {
        let mut cursor: usize = 0;
        let header = TagFileHeader::read_from_tag_file(file, 0, 0x40, &mut cursor)?;
        header.validate()?;
        let data_after_header = vstd::slice::slice_subrange(file, 0x40, file.len());
        Self::validate_crc32(&header, data_after_header, strictness)?;
        Ok((header, data_after_header))
    }

    /// Read the tag file buffer.
    ///
    /// Returns `Err` if the tag data is invalid, corrupt, or does not correspond to `T`.
    pub fn read_tag_from_file_buffer<T: PrimaryTagStruct>(file: &[u8], strictness: ParseStrictness) -> (r: RinghopperResult<T>)
        ensures
            match spec_read_tag_file::<T>(file@, strictness) {
                Ok(m) => r matches Ok(v) && v.spec_model() == m,
                Err(e) => r matches Err(re) && re == e,
            },
    {
        let (header, data_after_header) = Self::load_header_and_data(file, strictness)?;
        header.verify_group_matches::<T>()?;
        let mut cursor = T::size();
        let result = T::read_from_tag_file(data_after_header, 0, T::size(), &mut cursor)?;
        if cursor != data_after_header.len() {
            return Err(Error::TagParseFailure);
        }
        Ok(result)
    }
}

/// Law: the header that tag files are written with reads back as a valid header of the given group and version
/// whose CRC32 is that of the data after it, so loading passes the checks under either strictness.
pub proof fn law_new_header_loads(group: TagGroup, version: u16, body: Seq<u8>, strictness: ParseStrictness)
    ensures
        ({
            let file = spec_new_header_bytes(group, version, spec_crc_bytes(0xFFFFFFFF, body)) + body;
            spec_load_header_and_data(file, strictness) matches Ok((h, after)) && after == body && h.group == group
                && h.version == version && h.crc32 == spec_crc_bytes(0xFFFFFFFF, body)
        }),
{
    let crc = spec_crc_bytes(0xFFFFFFFF, body);
    let header = spec_new_header_bytes(group, version, crc);
    let file = header + body;
    let fourcc = spec_group_fourcc(group);
    lemma_u32_roundtrip(true, 0);
    lemma_u32_roundtrip(true, fourcc);
    lemma_u32_roundtrip(true, crc);
    lemma_u32_roundtrip(true, 0x40);
    lemma_u16_roundtrip(true, version);
    lemma_u16_roundtrip(true, 0xFF);
    lemma_u32_roundtrip(true, BLAM_FOURCC);
    law_fourcc_roundtrip(group);
    assert(header.len() == 0x40);
    assert(file.subrange(0x24, 0x28) =~= spec_u32_to_bytes(true, fourcc));
    assert(file.subrange(0x28, 0x2C) =~= spec_u32_to_bytes(true, crc));
    assert(file.subrange(0x2C, 0x30) =~= spec_u32_to_bytes(true, 0x40));
    assert(file.subrange(0x38, 0x3A) =~= spec_u16_to_bytes(true, version));
    assert(file.subrange(0x3A, 0x3C) =~= spec_u16_to_bytes(true, 0xFF));
    assert(file.subrange(0x3C, 0x40) =~= spec_u32_to_bytes(true, BLAM_FOURCC));
    assert(file.subrange(0x40, file.len() as int) =~= body);
    let h = TagFileHeader::spec_read(true, file, 0, 0x40)->Ok_0;
    assert(TagFileHeader::spec_read(true, file, 0, 0x40) is Ok);
    assert(h.group == group && h.version == version && h.crc32 == crc);
    assert(spec_header_valid(h));
}

/// Law: a tag file written for a tag reads back as that tag, under either strictness, whenever the tag's own data
/// reads back from where it was written, using all of it.
pub proof fn law_tag_file_roundtrip<T: PrimaryTagStruct>(m: T::Model, strictness: ParseStrictness)
    requires
        ({
            let capacity = 0x40 + T::spec_size();
            T::spec_write_tag(m, spec_zeros(capacity as nat), 0x40, capacity as int) matches Ok(d) && d.len() >= 0x40
                && T::spec_read_tag(d.subrange(0x40, d.len() as int), 0, T::spec_size() as int, T::spec_size() as int)
                == Ok::<(T::Model, int), Error>((m, d.len() - 0x40))
        }),
    ensures
        spec_write_tag_file::<T>(m) matches Ok(file) && spec_read_tag_file::<T>(file, strictness) == Ok::<T::Model, Error>(m),
{
    let capacity = 0x40 + T::spec_size();
    let d = T::spec_write_tag(m, spec_zeros(capacity as nat), 0x40, capacity as int)->Ok_0;
    let body = d.subrange(0x40, d.len() as int);
    let crc = spec_crc_bytes(0xFFFFFFFF, body);
    let header = spec_new_header_bytes(T::spec_tag_group(), T::spec_tag_version(), crc);
    lemma_u32_roundtrip(true, 0);
    lemma_u32_roundtrip(true, crc);
    lemma_u32_roundtrip(true, spec_group_fourcc(T::spec_tag_group()));
    lemma_u32_roundtrip(true, 0x40);
    lemma_u32_roundtrip(true, BLAM_FOURCC);
    lemma_u16_roundtrip(true, T::spec_tag_version());
    lemma_u16_roundtrip(true, 0xFF);
    assert(header.len() == 0x40);
    let file = spec_splice(d, 0, header);
    assert(file =~= header + body);
    law_new_header_loads(T::spec_tag_group(), T::spec_tag_version(), body, strictness);
}

/// A tag whose data reads back as it was written writes, after a header's space of zeros, data whose body reads
/// back as that tag.
proof fn lemma_framed_body<T: TagData>(m: T::Model)
    requires
        spec_roundtrips::<T>(m),
        0x40 + T::spec_size() + spec_frame_parts::<T>(m).1.len() <= usize::MAX,
    ensures
        ({
            let capacity = 0x40 + T::spec_size();
            T::spec_write_tag(m, spec_zeros(capacity as nat), 0x40, capacity as int) matches Ok(d) && d.len() >= 0x40
                && T::spec_read_tag(d.subrange(0x40, d.len() as int), 0, T::spec_size() as int, T::spec_size() as int)
                == Ok::<(T::Model, int), Error>((m, d.len() - 0x40))
        }),
{
    let (s, e) = spec_frame_parts::<T>(m);
    let size = T::spec_size();
    let capacity = 0x40 + size;
    let zeros = spec_zeros(capacity as nat);
    assert(T::spec_write_tag(m, zeros, 0x40, capacity as int) == Ok::<Seq<u8>, Error>(spec_splice(zeros, 0x40, s) + e));
    let d = spec_splice(zeros, 0x40, s) + e;
    let x = d.subrange(0x40, d.len() as int);
    assert(x =~= s + e);
    assert(x.subrange(0, size as int) =~= s);
    assert(x.subrange(size as int, (size + e.len()) as int) =~= e);
    assert(T::spec_read_tag(x, 0, size as int, size as int) == Ok::<(T::Model, int), Error>((m, (size + e.len()) as int)));
}

/// Law: a tag file written for a tag reads back as that tag, under either strictness, whenever the tag's own data
/// reads back as it was written and the file fits in memory.
pub proof fn law_tag_file_roundtrip_framed<T: PrimaryTagStruct>(m: T::Model, strictness: ParseStrictness)
    requires
        spec_roundtrips::<T>(m),
        0x40 + T::spec_size() + spec_frame_parts::<T>(m).1.len() <= usize::MAX,
    ensures
        spec_write_tag_file::<T>(m) matches Ok(file) && spec_read_tag_file::<T>(file, strictness) == Ok::<T::Model, Error>(m),
{
    lemma_framed_body::<T>(m);
    law_tag_file_roundtrip::<T>(m, strictness);
}

} // verus!
