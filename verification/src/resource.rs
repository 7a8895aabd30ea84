//! Resource maps: files holding bitmap, sound or string data by path, referred to by cache files.

use vstd::prelude::*;
use vstd::string::{StringSliceAdditionalSpecFns, StringExecFns};
use vstd::utf8::{valid_utf8, decode_utf8};
use crate::endian::{ByteOrder, LittleEndian};
use crate::error::{Error, RinghopperResult};
use crate::map::{spec_first_zero, first_zero};
use crate::parse::SimpleTagData;
use crate::primitive::data::spec_u32_at;
use crate::text::{str_from_utf8, str_eq, format_hex, format_decimal, spec_hex_padded, spec_decimal_digits};

verus! {

/// The header of a resource map, stored little endian at its start.
#[derive(Clone, Copy, Debug, PartialEq, Eq, Structural)]
pub struct ResourceMapHeader {
    /// The type of the resource map (1 = bitmaps, 2 = sounds, 3 = strings).
    pub resource_type: u32,

    /// Offset of the path data, which holds the null terminated paths.
    pub path_data_offset: u32,

    /// Offset of the array of resources.
    pub array_offset: u32,

    /// Number of resources.
    pub count: u32,
}

/// A resource in the array of a resource map.
#[derive(Clone, Copy, Debug, PartialEq, Eq, Structural)]
pub struct ResourceMapResource {
    /// Offset of the resource's path within the path data.
    pub path_offset: u32,

    /// Size of the resource's data.
    pub data_size: u32,

    /// Offset of the resource's data.
    pub data_offset: u32,
}

impl SimpleTagData for ResourceMapHeader {
    open spec fn spec_simple_size() -> nat {
        16
    }

    open spec fn spec_read(big: bool, data: Seq<u8>, at: int, struct_end: int) -> RinghopperResult<ResourceMapHeader> {
        match (spec_u32_at(big, data, at), spec_u32_at(big, data, at + 4), spec_u32_at(big, data, at + 8), spec_u32_at(big, data, at + 12)) {
            (Err(e), _, _, _) => Err(e),
            (_, Err(e), _, _) => Err(e),
            (_, _, Err(e), _) => Err(e),
            (_, _, _, Err(e)) => Err(e),
            (Ok(resource_type), Ok(path_data_offset), Ok(array_offset), Ok(count)) => Ok(
                ResourceMapHeader { resource_type, path_data_offset, array_offset, count },
            ),
        }
    }

    open spec fn spec_encode(self, big: bool) -> RinghopperResult<Seq<u8>> {
        Ok(crate::endian::spec_u32_to_bytes(big, self.resource_type) + crate::endian::spec_u32_to_bytes(big, self.path_data_offset)
            + crate::endian::spec_u32_to_bytes(big, self.array_offset) + crate::endian::spec_u32_to_bytes(big, self.count))
    }

    fn simple_size() -> (r: usize) {
        16
    }

    fn read<B: ByteOrder>(data: &[u8], at: usize, struct_end: usize) -> (r: RinghopperResult<ResourceMapHeader>) {
        let resource_type = u32::read::<B>(data, at, struct_end)?;
        let path_data_offset = u32::read::<B>(data, at + 4, struct_end)?;
        let array_offset = u32::read::<B>(data, at + 8, struct_end)?;
        let count = u32::read::<B>(data, at + 12, struct_end)?;
        Ok(ResourceMapHeader { resource_type, path_data_offset, array_offset, count })
    }

    fn write<B: ByteOrder>(&self, data: &mut [u8], at: usize, struct_end: usize) -> (r: RinghopperResult<()>) {
        let ghost d0 = data@;
        let ghost big = B::is_big_endian();
        self.resource_type.write::<B>(data, at, struct_end)?;
        self.path_data_offset.write::<B>(data, at + 4, struct_end)?;
        self.array_offset.write::<B>(data, at + 8, struct_end)?;
        self.count.write::<B>(data, at + 12, struct_end)?;
        proof {
            let a = crate::endian::spec_u32_to_bytes(big, self.resource_type);
            let b = crate::endian::spec_u32_to_bytes(big, self.path_data_offset);
            let c = crate::endian::spec_u32_to_bytes(big, self.array_offset);
            let e = crate::endian::spec_u32_to_bytes(big, self.count);
            crate::endian::lemma_u32_roundtrip(big, self.resource_type);
            crate::endian::lemma_u32_roundtrip(big, self.path_data_offset);
            crate::endian::lemma_u32_roundtrip(big, self.array_offset);
            crate::endian::lemma_u32_roundtrip(big, self.count);
            crate::primitive::data::lemma_splice_concat(d0, at as int, a, b);
            crate::primitive::data::lemma_splice_concat(d0, at as int, a + b, c);
            crate::primitive::data::lemma_splice_concat(d0, at as int, a + b + c, e);
        }
        Ok(())
    }
}

impl SimpleTagData for ResourceMapResource {
    open spec fn spec_simple_size() -> nat {
        12
    }

    open spec fn spec_read(big: bool, data: Seq<u8>, at: int, struct_end: int) -> RinghopperResult<ResourceMapResource> {
        match (spec_u32_at(big, data, at), spec_u32_at(big, data, at + 4), spec_u32_at(big, data, at + 8)) {
            (Err(e), _, _) => Err(e),
            (_, Err(e), _) => Err(e),
            (_, _, Err(e)) => Err(e),
            (Ok(path_offset), Ok(data_size), Ok(data_offset)) => Ok(ResourceMapResource { path_offset, data_size, data_offset }),
        }
    }

    open spec fn spec_encode(self, big: bool) -> RinghopperResult<Seq<u8>> {
        Ok(crate::endian::spec_u32_to_bytes(big, self.path_offset) + crate::endian::spec_u32_to_bytes(big, self.data_size)
            + crate::endian::spec_u32_to_bytes(big, self.data_offset))
    }

    fn simple_size() -> (r: usize) {
        12
    }

    fn read<B: ByteOrder>(data: &[u8], at: usize, struct_end: usize) -> (r: RinghopperResult<ResourceMapResource>) {
        let path_offset = u32::read::<B>(data, at, struct_end)?;
        let data_size = u32::read::<B>(data, at + 4, struct_end)?;
        let data_offset = u32::read::<B>(data, at + 8, struct_end)?;
        Ok(ResourceMapResource { path_offset, data_size, data_offset })
    }

    fn write<B: ByteOrder>(&self, data: &mut [u8], at: usize, struct_end: usize) -> (r: RinghopperResult<()>) {
        let ghost d0 = data@;
        let ghost big = B::is_big_endian();
        self.path_offset.write::<B>(data, at, struct_end)?;
        self.data_size.write::<B>(data, at + 4, struct_end)?;
        self.data_offset.write::<B>(data, at + 8, struct_end)?;
        proof {
            let a = crate::endian::spec_u32_to_bytes(big, self.path_offset);
            let b = crate::endian::spec_u32_to_bytes(big, self.data_size);
            let c = crate::endian::spec_u32_to_bytes(big, self.data_offset);
            crate::endian::lemma_u32_roundtrip(big, self.path_offset);
            crate::endian::lemma_u32_roundtrip(big, self.data_size);
            crate::endian::lemma_u32_roundtrip(big, self.data_offset);
            crate::primitive::data::lemma_splice_concat(d0, at as int, a, b);
            crate::primitive::data::lemma_splice_concat(d0, at as int, a + b, c);
        }
        Ok(())
    }
}

/// `true` if resource `index` of the array at `array_offset` is the record read there, and `ranges` is where its
/// path and data lie.
pub open spec fn spec_record_at(data: Seq<u8>, path_data_offset: int, array_offset: int, index: int, ranges: ResourceRanges) -> bool {
    ResourceMapResource::spec_read(false, data, array_offset + index * 12, data.len() as int) matches Ok(entry)
        && spec_resource_ranges(data, path_data_offset, index, entry) == Ok::<ResourceRanges, Seq<char>>(ranges)
}

/// Parsing `count` resources that succeeds gives one location per record, each from the record at its index.
proof fn lemma_parse_resources_records(data: Seq<u8>, path_data_offset: int, array_offset: int, count: nat)
    ensures
        spec_parse_resources(data, path_data_offset, array_offset, count) matches Ok(items) ==> {
            &&& items.len() == count
            &&& forall|i: int| 0 <= i < count ==> #[trigger] spec_record_at(data, path_data_offset, array_offset, i, items[i])
        },
    decreases count,
{
    if count > 0 {
        lemma_parse_resources_records(data, path_data_offset, array_offset, (count - 1) as nat);
        if let Ok(items) = spec_parse_resources(data, path_data_offset, array_offset, count) {
            let prev = spec_parse_resources(data, path_data_offset, array_offset, (count - 1) as nat)->Ok_0;
            assert(items == prev.push(items[count - 1]));
            assert forall|i: int| 0 <= i < count implies #[trigger] spec_record_at(data, path_data_offset, array_offset, i, items[i]) by {
                if i < count - 1 {
                    assert(items[i] == prev[i]);
                    assert(spec_record_at(data, path_data_offset, array_offset, i, prev[i]));
                }
            }
        }
    }
}

/// Law: resource `i` of a resource map that parses is the `i`-th record of the array that its header locates: the
/// map has as many resources as the header counts, and each lies where its record says.
pub proof fn law_resource_map_records(data: Seq<u8>)
    ensures
        spec_parse_resource_map(data) matches Ok(items) ==> (ResourceMapHeader::spec_read(false, data, 0, data.len() as int)
            matches Ok(header) && items.len() == header.count && forall|i: int|
            0 <= i < items.len() ==> #[trigger] spec_record_at(
                data,
                header.path_data_offset as int,
                header.array_offset as int,
                i,
                items[i],
            )),
{
    if let Ok(header) = ResourceMapHeader::spec_read(false, data, 0, data.len() as int) {
        lemma_parse_resources_records(data, header.path_data_offset as int, header.array_offset as int, header.count as nat);
    }
}

/// The name that debug formatting gives an error of a failed bounds check.
pub open spec fn spec_bounds_error_name(e: Error) -> Seq<char> {
    if e == Error::SizeLimitExceeded {
        "SizeLimitExceeded"@
    } else {
        "TagParseFailure"@
    }
}

/// `0x` and a number in eight or more uppercase hexadecimal digits.
pub open spec fn spec_hex8(n: int) -> Seq<char> {
    "0x"@ + spec_hex_padded(n as nat, 8)
}

/// The start of every error message about the resource at `index`.
pub open spec fn spec_index_prefix(index: int) -> Seq<char> {
    "Resource map parse failure: array index "@ + spec_decimal_digits(index as nat) + ": "@
}

/// The error message for a path problem of the resource at `index`.
pub open spec fn spec_path_error(index: int, inner: Seq<char>) -> Seq<char> {
    spec_index_prefix(index) + "can't get path offset: MapParseFailure(\""@ + inner + "\")"@
}

/// The location of a resource within the map: where its path and its data start and end.
pub type ResourceRanges = ((usize, usize), (usize, usize));

/// Where the path of a resource lies, or the message of the error for it.
pub open spec fn spec_path_range(data: Seq<u8>, path_data_offset: int, index: int, path_start: int) -> Result<(usize, usize), Seq<char>> {
    if path_start > data.len() - path_data_offset {
        Err(spec_path_error(index, spec_hex8(path_start) + " out-of-bounds in path data"@))
    } else {
        let string_start = data.subrange(path_data_offset + path_start, data.len() as int);
        match spec_first_zero(string_start) {
            None => Err(spec_path_error(index, spec_hex8(path_start) + " has no C string"@)),
            Some(len) => if !valid_utf8(string_start.take(len)) {
                Err(spec_path_error(index, spec_hex8(path_start) + " is not a valid UTF-8 string"@))
            } else {
                let p = path_data_offset + path_start;
                Ok((p as usize, (p + len) as usize))
            },
        }
    }
}

/// Where the data of a resource lies, or the message of the error for it.
pub open spec fn spec_data_range(data: Seq<u8>, index: int, data_start: int, data_size: int) -> Result<(usize, usize), Seq<char>> {
    if data_start + data_size > usize::MAX {
        Err(spec_index_prefix(index) + "can't get data offset: SizeLimitExceeded"@)
    } else if data_start + data_size > data.len() {
        Err(
            spec_index_prefix(index) + "can't get data offset: MapParseFailure(\""@ + spec_hex8(data_start) + "["@
                + spec_hex8(data_size) + "] out-of-bounds\")"@,
        )
    } else {
        Ok((data_start as usize, (data_start + data_size) as usize))
    }
}

/// Where the path and data of a resource lie, or the message of the error for it.
pub open spec fn spec_resource_ranges(
    data: Seq<u8>,
    path_data_offset: int,
    index: int,
    entry: ResourceMapResource,
) -> Result<ResourceRanges, Seq<char>> {
    match spec_path_range(data, path_data_offset, index, entry.path_offset as int) {
        Err(e) => Err(e),
        Ok(p) => match spec_data_range(data, index, entry.data_offset as int, entry.data_size as int) {
            Err(e) => Err(e),
            Ok(d) => Ok((p, d)),
        },
    }
}

/// Parsing the first `count` resources of the array at `array_offset`: their locations, or the message of the first
/// error.
pub open spec fn spec_parse_resources(data: Seq<u8>, path_data_offset: int, array_offset: int, count: nat) -> Result<
    Seq<ResourceRanges>,
    Seq<char>,
>
    decreases count,
{
    if count == 0 {
        Ok(Seq::empty())
    } else {
        match spec_parse_resources(data, path_data_offset, array_offset, (count - 1) as nat) {
            Err(e) => Err(e),
            Ok(items) => {
                let index = count - 1;
                match ResourceMapResource::spec_read(false, data, array_offset + index * 12, data.len() as int) {
                    Err(e) => Err(spec_index_prefix(index) + spec_bounds_error_name(e)),
                    Ok(entry) => match spec_resource_ranges(data, path_data_offset, index, entry) {
                        Err(e) => Err(e),
                        Ok(r) => Ok(items.push(r)),
                    },
                }
            },
        }
    }
}

/// Parsing a resource map: where the path and data of each resource lie, or the message of the error.
pub open spec fn spec_parse_resource_map(data: Seq<u8>) -> Result<Seq<ResourceRanges>, Seq<char>> {
    match ResourceMapHeader::spec_read(false, data, 0, data.len() as int) {
        Err(e) => Err("Resource map parse failure: can't read resource map header: "@ + spec_bounds_error_name(e)),
        Ok(header) => if header.path_data_offset > data.len() {
            Err("Resource map parse failure: path data offset "@ + spec_hex8(header.path_data_offset as int)
                + " is out-of-bounds"@)
        } else {
            spec_parse_resources(data, header.path_data_offset as int, header.array_offset as int, header.count as nat)
        },
    }
}

/// `true` if a resource's ranges lie within the data, and its path is UTF-8.
pub open spec fn spec_ranges_valid(data: Seq<u8>, r: ResourceRanges) -> bool {
    &&& r.0.0 <= r.0.1 <= data.len()
    &&& r.1.0 <= r.1.1 <= data.len()
    &&& valid_utf8(data.subrange(r.0.0 as int, r.0.1 as int))
}

/// A resource map, holding its data and where each resource lies in it.
#[derive(Default, Debug)]
pub struct ResourceMap {
    resources: Vec<ResourceRanges>,
    data: Vec<u8>,
}

/// Indicates a single resource in a [`ResourceMap`].
pub struct Resource<'a> {
    path: &'a str,
    data: &'a [u8],
    data_offset: usize,
}

impl<'a> Resource<'a> {
    /// The bytes of the resource's path.
    pub closed spec fn spec_path(&self) -> Seq<u8> {
        self.path.spec_bytes()
    }

    /// The resource's data.
    pub closed spec fn spec_data(&self) -> Seq<u8> {
        self.data@
    }

    /// The offset of the resource's data within the map.
    pub closed spec fn spec_data_offset(&self) -> usize {
        self.data_offset
    }

    /// Get the offset to the data in the resource map.
    pub fn get_data_offset(&self) -> (r: usize)
        ensures
            r == self.spec_data_offset(),
    {
        self.data_offset
    }

    /// Get the data in the resource map.
    pub fn get_data(&self) -> (r: &'a [u8])
        ensures
            r@ == self.spec_data(),
    {
        self.data
    }

    /// Get the name of the resource.
    pub fn get_path(&self) -> (r: &'a str)
        ensures
            r.spec_bytes() == self.spec_path(),
    {
        self.path
    }
}

/// `true` if `res` is the resource that `ranges` locates in `data`.
pub open spec fn spec_is_resource(res: Resource, data: Seq<u8>, ranges: ResourceRanges) -> bool {
    &&& res.spec_path() == data.subrange(ranges.0.0 as int, ranges.0.1 as int)
    &&& res.spec_data() == data.subrange(ranges.1.0 as int, ranges.1.1 as int)
    &&& res.spec_data_offset() == ranges.1.0
}

impl ResourceMap {
    #[verifier::type_invariant]
    spec fn well_formed(self) -> bool {
        forall|i: int| 0 <= i < self.resources@.len() ==> #[trigger] spec_ranges_valid(self.data@, self.resources@[i])
    }

    /// All data in the resource map.
    pub closed spec fn spec_data(&self) -> Seq<u8> {
        self.data@
    }

    /// Where the path and data of each resource lie.
    pub closed spec fn spec_resources(&self) -> Seq<ResourceRanges> {
        self.resources@
    }

    /// Instantiate a ResourceMap from data, consuming it.
    ///
    /// Returns [`Error::MapParseFailure`] if parsing failed.
    pub fn from_data(data: Vec<u8>) -> (r: RinghopperResult<ResourceMap>)
        ensures
            match spec_parse_resource_map(data@) {
                Ok(items) => r matches Ok(m) && m.spec_resources() == items && m.spec_data() == data@,
                Err(msg) => r matches Err(Error::MapParseFailure(m)) && m@ == msg,
            },
    {
        let data_slice = data.as_slice();
        let header = match ResourceMapHeader::read::<LittleEndian>(data_slice, 0, data_slice.len()) {
            Ok(h) => h,
            Err(e) => {
                let mut m = "Resource map parse failure: can't read resource map header: ".to_owned();
                m.append(bounds_error_name(&e));
                return Err(Error::MapParseFailure(m));
            },
        };
        let path_data_offset = header.path_data_offset as usize;
        if path_data_offset > data_slice.len() {
            let mut m = "Resource map parse failure: path data offset ".to_owned();
            m.append(hex8(path_data_offset).as_str());
            m.append(" is out-of-bounds");
            return Err(Error::MapParseFailure(m));
        }
        let array_offset = header.array_offset as usize;
        let array_len = header.count as usize;
        let mut resources: Vec<ResourceRanges> = Vec::new();
        let mut current_offset = array_offset;
        let mut i: usize = 0;
        while i < array_len
            invariant
                i <= array_len,
                data_slice@ == data@,
                path_data_offset <= data@.len(),
                current_offset == array_offset + i * 12,
                spec_parse_resource_map(data@) == spec_parse_resources(
                    data@,
                    path_data_offset as int,
                    array_offset as int,
                    array_len as nat,
                ),
                spec_parse_resources(data@, path_data_offset as int, array_offset as int, i as nat) == Ok::<
                    Seq<ResourceRanges>,
                    Seq<char>,
                >(resources@),
                forall|k: int| 0 <= k < resources@.len() ==> #[trigger] spec_ranges_valid(data@, resources@[k]),
            decreases array_len - i,
        {
            let entry = match ResourceMapResource::read::<LittleEndian>(data_slice, current_offset, data_slice.len()) {
                Ok(e) => e,
                Err(e) => {
                    let mut m = index_prefix(i);
                    m.append(bounds_error_name(&e));
                    proof {
                        lemma_parse_resources_err(data@, path_data_offset as int, array_offset as int, (i + 1) as nat, array_len as nat);
                    }
                    return Err(Error::MapParseFailure(m));
                },
            };
            let ranges = match resource_ranges(data_slice, path_data_offset, i, &entry) {
                Ok(r) => r,
                Err(m) => {
                    proof {
                        lemma_parse_resources_err(data@, path_data_offset as int, array_offset as int, (i + 1) as nat, array_len as nat);
                    }
                    return Err(Error::MapParseFailure(m));
                },
            };
            resources.push(ranges);
            current_offset = current_offset + 12;
            i = i + 1;
        }
        proof {
            assert(spec_parse_resource_map(data@) == Ok::<Seq<ResourceRanges>, Seq<char>>(resources@));
        }
        Ok(ResourceMap { resources, data })
    }

    /// Get a reference to all data in the resource map.
    pub fn data(&self) -> (r: &[u8])
        ensures
            r@ == self.spec_data(),
    {
        self.data.as_slice()
    }

    /// Consume the ResourceMap back into data.
    pub fn into_data(self) -> (r: Vec<u8>)
        ensures
            r@ == self.spec_data(),
    {
        self.data
    }

    /// Get the number of elements in the resource map.
    pub fn len(&self) -> (r: usize)
        ensures
            r == self.spec_resources().len(),
    {
        self.resources.len()
    }

    /// The resource that `ranges` locates.
    fn resource_at<'a>(&'a self, ranges: ResourceRanges) -> (r: Resource<'a>)
        requires
            spec_ranges_valid(self.data@, ranges),
        ensures
            spec_is_resource(r, self.spec_data(), ranges),
    {
        let ((path_start, path_end), (data_start, data_end)) = ranges;
        let path_bytes = vstd::slice::slice_subrange(self.data.as_slice(), path_start, path_end);
        let path = match str_from_utf8(path_bytes) {
            Some(s) => s,
            None => "",
        };
        Resource { path, data: vstd::slice::slice_subrange(self.data.as_slice(), data_start, data_end), data_offset: data_start }
    }

    /// Get a resource at an index.
    ///
    /// If `index` is out-of-bounds, `None` is returned.
    pub fn get<'a>(&'a self, index: usize) -> (r: Option<Resource<'a>>)
        ensures
            index < self.spec_resources().len() ==> (r matches Some(res) && spec_is_resource(
                res,
                self.spec_data(),
                self.spec_resources()[index as int],
            )),
            index >= self.spec_resources().len() ==> r is None,
    {
        proof {
            use_type_invariant(self);
        }
        if index < self.resources.len() {
            Some(self.resource_at(self.resources[index]))
        } else {
            None
        }
    }

    /// Get a resource by its path.
    ///
    /// The first resource whose path is `path` is returned; if `path` does not match anything, `None` is returned.
    pub fn get_by_path<'a>(&'a self, path: &str) -> (r: Option<Resource<'a>>)
        ensures
            match r {
                Some(res) => exists|k: int|
                    0 <= k < self.spec_resources().len() && spec_is_resource(res, self.spec_data(), #[trigger] self.spec_resources()[k])
                        && decode_utf8(res.spec_path()) == path@ && forall|j: int|
                        0 <= j < k ==> decode_utf8(self.spec_data().subrange(
                            self.spec_resources()[j].0.0 as int,
                            self.spec_resources()[j].0.1 as int,
                        )) != path@,
                None => forall|j: int|
                    0 <= j < self.spec_resources().len() ==> decode_utf8(self.spec_data().subrange(
                        #[trigger] self.spec_resources()[j].0.0 as int,
                        self.spec_resources()[j].0.1 as int,
                    )) != path@,
            },
    {
        proof {
            use_type_invariant(self);
        }
        let mut i: usize = 0;
        while i < self.resources.len()
            invariant
                i <= self.resources@.len(),
                forall|k: int| 0 <= k < self.resources@.len() ==> #[trigger] spec_ranges_valid(self.data@, self.resources@[k]),
                forall|j: int|
                    0 <= j < i ==> decode_utf8(self.data@.subrange(
                        #[trigger] self.resources@[j].0.0 as int,
                        self.resources@[j].0.1 as int,
                    )) != path@,
            decreases self.resources@.len() - i,
        {
            let resource = self.resource_at(self.resources[i]);
            let ghost k = i as int;
            proof {
                assert(spec_ranges_valid(self.data@, self.resources@[k]));
                vstd::utf8::encode_utf8_decode_utf8(resource.path@);
            }
            if str_eq(resource.path, path) {
                proof {
                    assert(spec_is_resource(resource, self.spec_data(), self.spec_resources()[k]));
                    assert(decode_utf8(resource.spec_path()) == path@);
                }
                return Some(resource);
            }
            i = i + 1;
        }
        None
    }
}

impl Clone for ResourceMap {
    /// A copy of the map.
    fn clone(&self) -> (r: ResourceMap)
        ensures
            r.spec_data() == self.spec_data(),
            r.spec_resources() == self.spec_resources(),
    {
        proof {
            use_type_invariant(self);
        }
        let mut resources: Vec<ResourceRanges> = Vec::new();
        let mut i: usize = 0;
        while i < self.resources.len()
            invariant
                i <= self.resources@.len(),
                resources@ == self.resources@.take(i as int),
            decreases self.resources@.len() - i,
        {
            resources.push(self.resources[i]);
            proof {
                assert(self.resources@.take(i + 1) =~= self.resources@.take(i as int).push(self.resources@[i as int]));
            }
            i = i + 1;
        }
        proof {
            assert(self.resources@.take(i as int) =~= self.resources@);
        }
        ResourceMap { resources, data: vstd::slice::slice_to_vec(self.data.as_slice()) }
    }
}

/// Once parsing a resource fails, parsing more resources fails the same way.
proof fn lemma_parse_resources_err(data: Seq<u8>, path_data_offset: int, array_offset: int, i: nat, n: nat)
    requires
        i <= n,
        spec_parse_resources(data, path_data_offset, array_offset, i) is Err,
    ensures
        spec_parse_resources(data, path_data_offset, array_offset, n) == spec_parse_resources(
            data,
            path_data_offset,
            array_offset,
            i,
        ),
    decreases n,
{
    if i < n {
        lemma_parse_resources_err(data, path_data_offset, array_offset, i, (n - 1) as nat);
    }
}

/// The name that debug formatting gives an error of a failed bounds check.
fn bounds_error_name(e: &Error) -> (r: &'static str)
    ensures
        r@ == spec_bounds_error_name(*e),
{
    match e {
        Error::SizeLimitExceeded => "SizeLimitExceeded",
        _ => "TagParseFailure",
    }
}

/// `0x` and `n` in eight or more uppercase hexadecimal digits.
fn hex8(n: usize) -> (r: String)
    ensures
        r@ == spec_hex8(n as int),
{
    let mut m = "0x".to_owned();
    m.append(format_hex(n, 8).as_str());
    m
}

/// The start of every error message about the resource at `index`.
fn index_prefix(index: usize) -> (r: String)
    ensures
        r@ == spec_index_prefix(index as int),
{
    let mut m = "Resource map parse failure: array index ".to_owned();
    m.append(format_decimal(index).as_str());
    m.append(": ");
    m
}

/// The error for a path problem of the resource at `index`.
fn path_error(index: usize, inner: String) -> (r: String)
    ensures
        r@ == spec_path_error(index as int, inner@),
{
    let mut m = index_prefix(index);
    m.append("can't get path offset: MapParseFailure(\"");
    m.append(inner.as_str());
    m.append("\")");
    m
}

/// Find where the path of a resource lies, or the message of the error.
fn path_range(data: &[u8], path_data_offset: usize, index: usize, path_offset: u32) -> (r: Result<(usize, usize), String>)
    requires
        path_data_offset <= data@.len(),
    ensures
        match spec_path_range(data@, path_data_offset as int, index as int, path_offset as int) {
            Ok(p) => r == Ok::<(usize, usize), String>(p) && p.0 <= p.1 <= data@.len() && valid_utf8(
                data@.subrange(p.0 as int, p.1 as int),
            ),
            Err(msg) => r matches Err(m) && m@ == msg,
        },
{
    let path_offset_start = path_offset as usize;
    if path_offset_start > data.len() - path_data_offset {
        let mut m = hex8(path_offset_start);
        m.append(" out-of-bounds in path data");
        return Err(path_error(index, m));
    }
    let string_start = path_data_offset + path_offset_start;
    let ghost rest = data@.subrange(string_start as int, data@.len() as int);
    let end = match first_zero(data, string_start) {
        Some(z) => z,
        None => {
            let mut m = hex8(path_offset_start);
            m.append(" has no C string");
            return Err(path_error(index, m));
        },
    };
    let path_bytes = vstd::slice::slice_subrange(data, string_start, end);
    proof {
        assert(path_bytes@ =~= rest.take(end - string_start));
    }
    if str_from_utf8(path_bytes).is_none() {
        let mut m = hex8(path_offset_start);
        m.append(" is not a valid UTF-8 string");
        return Err(path_error(index, m));
    }
    Ok((string_start, end))
}

/// Find where the data of a resource lies, or the message of the error.
fn data_range(data: &[u8], index: usize, data_offset: u32, data_size: u32) -> (r: Result<(usize, usize), String>)
    ensures
        match spec_data_range(data@, index as int, data_offset as int, data_size as int) {
            Ok(d) => r == Ok::<(usize, usize), String>(d) && d.0 <= d.1 <= data@.len(),
            Err(msg) => r matches Err(m) && m@ == msg,
        },
{
    let data_offset_start = data_offset as usize;
    let data_size = data_size as usize;
    let data_offset_end = match data_offset_start.checked_add(data_size) {
        Some(e) => e,
        None => {
            let mut m = index_prefix(index);
            m.append("can't get data offset: SizeLimitExceeded");
            return Err(m);
        },
    };
    if data_offset_end > data.len() {
        let mut m = index_prefix(index);
        m.append("can't get data offset: MapParseFailure(\"");
        m.append(hex8(data_offset_start).as_str());
        m.append("[");
        m.append(hex8(data_size).as_str());
        m.append("] out-of-bounds\")");
        return Err(m);
    }
    Ok((data_offset_start, data_offset_end))
}

/// Find where the path and data of a resource lie, or the message of the error.
fn resource_ranges(data: &[u8], path_data_offset: usize, index: usize, entry: &ResourceMapResource) -> (r: Result<ResourceRanges, String>)
    requires
        path_data_offset <= data@.len(),
    ensures
        match spec_resource_ranges(data@, path_data_offset as int, index as int, *entry) {
            Ok(ranges) => r == Ok::<ResourceRanges, String>(ranges) && spec_ranges_valid(data@, ranges),
            Err(msg) => r matches Err(m) && m@ == msg,
        },
{
    let p = path_range(data, path_data_offset, index, entry.path_offset)?;
    let d = data_range(data, index, entry.data_offset, entry.data_size)?;
    Ok((p, d))
}

} // verus!
