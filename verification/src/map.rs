//! Cache file (map) access: address domains, cached tags, and reading data out of a map.

use vstd::prelude::*;
use vstd::string::StringSliceAdditionalSpecFns;
use vstd::utf8::valid_utf8;
use crate::engine::Engine;
use crate::primitive::data::{ID, IDType, spec_id_new};
use crate::primitive::path::{TagPath, TagReference};
use crate::error::{Error, RinghopperResult};
use crate::text::{chars_of, format_decimal, spec_decimal_digits, str_from_utf8, string_push};

verus! {

/// The resource maps.
#[derive(Copy, Clone, Debug, PartialEq, Eq, Structural, Hash)]
pub enum ResourceMapType {
    Bitmaps,
    Sounds,
    Loc,
}

/// Domains are regions of memory that may have their own address space.
#[derive(Clone, Debug, PartialEq, Eq, Hash)]
pub enum DomainType {
    /// Map file data (0x0 = cache file header).
    MapData,

    /// Main tag data (0x0 = tag data header).
    TagData,

    /// BSP data for the given BSP (0x0 = BSP main struct).
    BSP(usize),

    /// BSP vertices for the given BSP (MCC only) (0x0 = start of vertices).
    BSPVertices(usize),

    /// Resource map file (0x0 = start of resource map).
    ResourceMapFile(ResourceMapType),

    /// Resource map type and path (0x0 = start of resource map entry).
    ResourceMapEntry(ResourceMapType, String),

    /// Vertex data (0x0 = start of vertices)
    ModelVertexData,

    /// Triangle data (0x0 = start of triangles)
    ModelTriangleData,
}

/// Cached tag data.
#[derive(Clone, Debug)]
pub struct Tag {
    /// Path of the tag.
    pub tag_path: TagPath,

    /// Main address of the tag's base struct.
    pub address: usize,

    /// Domain of the tag's base struct.
    pub domain: DomainType,
}

/// The bytes at `address` within the data of a domain starting at `base`: `None` where the address is below the
/// base, or the end cannot be addressed or lies past the data.
pub open spec fn spec_bytes_at(domain_data: Seq<u8>, base: int, address: int, size: int) -> Option<Seq<u8>> {
    if address < base || address - base + size > usize::MAX || address - base + size > domain_data.len() {
        None
    } else {
        Some(domain_data.subrange(address - base, address - base + size))
    }
}

/// The index of the first zero byte of `b`, if there is one.
pub open spec fn spec_first_zero(b: Seq<u8>) -> Option<int> {
    if exists|i: int| 0 <= i < b.len() && b[i] == 0 {
        Some(choose|i: int| 0 <= i < b.len() && b[i] == 0 && forall|j: int| 0 <= j < i ==> b[j] != 0)
    } else {
        None
    }
}

/// The null terminated UTF-8 string at `offset` within `data`.
pub open spec fn spec_c_string_from(data: Seq<u8>, offset: int) -> Option<Seq<u8>> {
    let rest = data.subrange(offset, data.len() as int);
    match spec_first_zero(rest) {
        None => None,
        Some(z) => if valid_utf8(rest.take(z)) {
            Some(rest.take(z))
        } else {
            None
        },
    }
}

/// The null terminated UTF-8 string at `address` within the data of a domain starting at `base`.
pub open spec fn spec_c_string_at(domain_data: Seq<u8>, base: int, address: int) -> Option<Seq<u8>> {
    if address < base || address - base > domain_data.len() {
        None
    } else {
        spec_c_string_from(domain_data, address - base)
    }
}

/// Read the null terminated UTF-8 string at `offset` within `data`.
fn c_string_from(data: &[u8], offset: usize) -> (r: Option<&str>)
    requires
        offset <= data@.len(),
    ensures
        match spec_c_string_from(data@, offset as int) {
            Some(b) => r matches Some(s) && s.spec_bytes() == b,
            None => r is None,
        },
{
    let end = match first_zero(data, offset) {
        Some(z) => z,
        None => return None,
    };
    let bytes = vstd::slice::slice_subrange(data, offset, end);
    let ghost rest = data@.subrange(offset as int, data@.len() as int);
    proof {
        assert(spec_first_zero(rest) == Some((end - offset) as int));
        assert(bytes@ =~= rest.take(end - offset));
    }
    let r = str_from_utf8(bytes);
    proof {
        if r is Some {
            assert(valid_utf8(rest.take(end - offset)));
        }
    }
    r
}

/// Find the first zero in `b[start..]`.
pub(crate) fn first_zero(b: &[u8], start: usize) -> (r: Option<usize>)
    requires
        start <= b@.len(),
    ensures
        match spec_first_zero(b@.subrange(start as int, b@.len() as int)) {
            Some(z) => r matches Some(i) && i == start + z,
            None => r is None,
        },
        r matches Some(i) ==> start <= i < b@.len(),
{
    let ghost s = b@.subrange(start as int, b@.len() as int);
    let mut i = start;
    while i < b.len()
        invariant
            start <= i <= b@.len(),
            s == b@.subrange(start as int, b@.len() as int),
            forall|j: int| 0 <= j < i - start ==> s[j] != 0,
        decreases b@.len() - i,
    {
        if b[i] == 0 {
            proof {
                let k = (i - start) as int;
                assert(s[k] == 0);
                let w = choose|w: int| 0 <= w < s.len() && s[w] == 0 && forall|j: int| 0 <= j < w ==> s[j] != 0;
                if w < k {
                } else if k < w {
                    assert(s[k] != 0);
                }
            }
            return Some(i);
        }
        i = i + 1;
    }
    None
}

/// Map parsing functionality.
///
/// The provided methods are written in terms of [`CacheMap::get_domain`] and [`CacheMap::get_tag_by_id`].
pub trait CacheMap {
    /// The data and base address of a domain, if the map has it; nothing is known of it unless the implementation
    /// says.
    closed spec fn spec_domain(&self, domain: DomainType) -> Option<(Seq<u8>, usize)> {
        arbitrary()
    }

    /// The tag with the given ID, if there is one; nothing is known of it unless the implementation says.
    closed spec fn spec_tag_by_id(&self, id: ID) -> Option<Tag> {
        arbitrary()
    }

    /// Get the name of the map.
    fn get_name(&self) -> &str;

    /// Get the build string of the map.
    ///
    /// NOTE: This is not useful for identifying the engine. Use [`get_engine`](CacheMap::get_engine) for this.
    fn get_build_string(&self) -> &str;

    /// Get the CRC32 of the map, if available.
    ///
    /// The first value is the CRC32 in the header. The second value is the calculated CRC32.
    fn get_crc32(&self) -> (r: Option<(u32, u32)>)
        default_ensures
            r is None,
    {
        None
    }

    /// Get an estimated max tag space for the map.
    ///
    /// This may or may not be reliable, as it assumes the map was built with the BSP data at the end of tag data.
    fn get_estimated_max_tag_space(&self) -> (r: Option<usize>)
        default_ensures
            r is None,
    {
        None
    }

    /// Get the uncompressed size of the map, if available.
    fn get_uncompressed_size(&self) -> (r: Option<usize>)
        default_ensures
            r is None,
    {
        None
    }

    /// Get the tag space usage, if available.
    fn get_used_tag_space(&self) -> (r: Option<usize>)
        default_ensures
            r is None,
    {
        None
    }

    /// The engine of the map; nothing is known of it unless the implementation says.
    closed spec fn spec_engine(&self) -> Engine {
        arbitrary()
    }

    /// Get the engine for the map.
    fn get_engine(&self) -> (r: &'static Engine)
        ensures
            *r == self.spec_engine(),
    ;

    /// Get the domain data, returning a slice and the base address offset.
    fn get_domain(&self, domain: &DomainType) -> (r: Option<(&[u8], usize)>)
        ensures
            match self.spec_domain(*domain) {
                Some((d, base)) => r matches Some((rd, rb)) && rd@ == d && rb == base,
                None => r is None,
            },
    ;

    /// Get the tag for the tag id.
    ///
    /// Returns None if the ID is invalid or null.
    fn get_tag_by_id(&self, id: ID) -> (r: Option<&Tag>)
        ensures
            match self.spec_tag_by_id(id) {
                Some(t) => r == Some(&t),
                None => r is None,
            },
    ;

    /// The tag with the given path, if there is one; nothing is known of it unless the implementation says.
    closed spec fn spec_tag_by_path(&self, path: TagPath) -> Option<Tag> {
        arbitrary()
    }

    /// Get the tag for the tag path.
    ///
    /// Returns None if the tag does not exist in the map.
    fn get_tag(&self, path: &TagPath) -> (r: Option<&Tag>)
        ensures
            match self.spec_tag_by_path(*path) {
                Some(t) => r == Some(&t),
                None => r is None,
            },
    ;

    /// Get the scenario tag for the tag ID.
    fn get_scenario_tag(&self) -> &Tag;

    /// Returns all tags in the cache file.
    fn get_all_tags(&self) -> Vec<TagPath>;

    /// Get the tag for the given index.
    ///
    /// Returns `None` if the tag index is not a valid tag index.
    ///
    /// The default implementation should satisfy most use-cases.
    fn get_tag_by_index(&self, index: usize) -> (r: Option<&Tag>)
        ensures
            index > 0xFFFF ==> r is None,
            index <= 0xFFFF ==> forall|id: ID| #[trigger] id@ == spec_id_new(index as u16, 0x6174) ==> match self.spec_tag_by_id(id) {
                Some(t) => r == Some(&t),
                None => r is None,
            },
    {
        if index > 0xFFFF {
            return None;
        }
        let id = ID::new(Some(index as u16), IDType::Tag.salt());
        proof {
            crate::primitive::data::lemma_id_view_injective(id);
        }
        self.get_tag_by_id(id)
    }

    /// Get the tag for the given tag reference.
    ///
    /// Returns `None` if the reference is null or its tag is not in the map.
    ///
    /// The default implementation should satisfy all use-cases.
    fn get_tag_by_tag_reference(&self, reference: &TagReference) -> (r: Option<&Tag>)
        ensures
            match *reference {
                TagReference::SetTo(p) => match self.spec_tag_by_path(p) {
                    Some(t) => r == Some(&t),
                    None => r is None,
                },
                TagReference::Null(_) => r is None,
            },
    {
        match reference.path() {
            Some(p) => self.get_tag(p),
            None => None,
        }
    }

    /// Get the data at the given location.
    ///
    /// Returns `None` if the data is unavailable or out-of-bounds.
    ///
    /// The default implementation should satisfy most use-cases. Additionally, it will try tag data if the
    /// address is out-of-bounds for BSP data.
    fn get_data_at_address(&self, address: usize, domain: &DomainType, size: usize) -> (r: Option<&[u8]>)
        ensures
            match spec_data_lookup(self.spec_domain(*domain), self.spec_domain(DomainType::TagData), domain is BSP,
                address as int, size as int) {
                Some(b) => r matches Some(s) && s@ == b,
                None => r is None,
            },
    {
        let (domain_start, domain_base) = match self.get_domain(domain) {
            Some(d) => d,
            None => return None,
        };
        let offset = match address.checked_sub(domain_base) {
            Some(o) => o,
            None => return None,
        };
        let end = match offset.checked_add(size) {
            Some(e) => e,
            None => return None,
        };
        if end <= domain_start.len() {
            return Some(vstd::slice::slice_subrange(domain_start, offset, end));
        }
        if !matches!(domain, DomainType::BSP(_)) {
            return None;
        }
        // try the tag data
        let (tag_start, tag_base) = match self.get_domain(&DomainType::TagData) {
            Some(d) => d,
            None => return None,
        };
        let offset = match address.checked_sub(tag_base) {
            Some(o) => o,
            None => return None,
        };
        let end = match offset.checked_add(size) {
            Some(e) => e,
            None => return None,
        };
        if end <= tag_start.len() {
            Some(vstd::slice::slice_subrange(tag_start, offset, end))
        } else {
            None
        }
    }

    /// Get the C string at the given location.
    ///
    /// Returns `None` if the data is unavailable or out-of-bounds, or it is not UTF-8.
    ///
    /// The default implementation should satisfy most use-cases. Additionally, it will try tag data if the
    /// address is out-of-bounds for BSP data.
    fn get_c_string_at_address(&self, address: usize, domain: &DomainType) -> (r: Option<&str>)
        ensures
            match spec_c_string_in_domain(self.spec_domain(*domain), address as int) {
                Ok(Some(b)) => r matches Some(s) && s.spec_bytes() == b,
                Ok(None) => r is None,
                Err(true) => if domain is BSP {
                    match spec_c_string_in_domain(self.spec_domain(DomainType::TagData), address as int) {
                        Ok(Some(b)) => r matches Some(s) && s.spec_bytes() == b,
                        _ => r is None,
                    }
                } else {
                    r is None
                },
                Err(false) => r is None,
            },
    {
        let (domain_start, domain_base) = match self.get_domain(domain) {
            Some(d) => d,
            None => return None,
        };
        let offset = match address.checked_sub(domain_base) {
            Some(o) => o,
            None => return None,
        };
        let (data, offset) = if offset <= domain_start.len() {
            (domain_start, offset)
        } else if matches!(domain, DomainType::BSP(_)) {
            // try the tag data
            let (tag_start, tag_base) = match self.get_domain(&DomainType::TagData) {
                Some(d) => d,
                None => return None,
            };
            let tag_offset = match address.checked_sub(tag_base) {
                Some(o) => o,
                None => return None,
            };
            if tag_offset > tag_start.len() {
                return None;
            }
            (tag_start, tag_offset)
        } else {
            return None;
        };
        c_string_from(data, offset)
    }
}

/// Looking up `size` bytes at `address` in a domain: `Err` where the domain is missing or the address is below its
/// base or the end cannot be addressed; `Ok(None)` where the bytes run past the domain's data.
pub open spec fn spec_data_in_domain(domain: Option<(Seq<u8>, usize)>, address: int, size: int) -> Result<Option<Seq<u8>>, ()> {
    match domain {
        None => Err(()),
        Some((d, base)) => if address < base || address - base + size > usize::MAX {
            Err(())
        } else {
            Ok(spec_bytes_at(d, base as int, address, size))
        },
    }
}

/// The `size` bytes at `address` in a domain, given the domain and the tag data: where they run past the data of a
/// BSP (`bsp`), they are looked up in the tag data.
pub open spec fn spec_data_lookup(
    domain: Option<(Seq<u8>, usize)>,
    tag_data: Option<(Seq<u8>, usize)>,
    bsp: bool,
    address: int,
    size: int,
) -> Option<Seq<u8>> {
    match spec_data_in_domain(domain, address, size) {
        Ok(Some(b)) => Some(b),
        Ok(None) => if bsp {
            match spec_data_in_domain(tag_data, address, size) {
                Ok(Some(b)) => Some(b),
                _ => None,
            }
        } else {
            None
        },
        Err(_) => None,
    }
}

/// What reading from a map can see of it: its domains, its tags by ID, and its engine.
pub struct MapView {
    pub domain: spec_fn(DomainType) -> Option<(Seq<u8>, usize)>,
    pub tag_by_id: spec_fn(ID) -> Option<Tag>,
    pub engine: Engine,
}

/// What reading from `map` can see of it.
pub open spec fn spec_map_view<M: CacheMap>(map: &M) -> MapView {
    MapView {
        domain: |d: DomainType| map.spec_domain(d),
        tag_by_id: |id: ID| map.spec_tag_by_id(id),
        engine: map.spec_engine(),
    }
}

/// What [`CacheMap::get_data_at_address`] finds is what the map's view gives.
pub proof fn lemma_view_data_at<M: CacheMap>(map: &M, address: int, domain: DomainType, size: int)
    ensures
        spec_view_data_at(spec_map_view(map), address, domain, size) == spec_data_lookup(
            map.spec_domain(domain),
            map.spec_domain(DomainType::TagData),
            domain is BSP,
            address,
            size,
        ),
{
}

/// The `size` bytes at `address` in a domain of a map, as [`CacheMap::get_data_at_address`] finds them.
pub open spec fn spec_view_data_at(map: MapView, address: int, domain: DomainType, size: int) -> Option<Seq<u8>> {
    spec_data_lookup((map.domain)(domain), (map.domain)(DomainType::TagData), domain is BSP, address, size)
}

/// Why reading tag data out of a map failed.
pub enum MapReadError {
    /// The data is not in the map: [`Error::MapDataOutOfBounds`] with this message.
    OutOfBounds(Seq<char>),

    /// [`Error::Other`] with this message.
    Other(Seq<char>),

    /// Any other error.
    Failed(Error),
}

/// `r` is the error that `e` describes.
pub open spec fn spec_map_error_is(r: Error, e: MapReadError) -> bool {
    match e {
        MapReadError::OutOfBounds(msg) => r matches Error::MapDataOutOfBounds(s) && s@ == msg,
        MapReadError::Other(msg) => r matches Error::Other(s) && s@ == msg,
        MapReadError::Failed(x) => r == x,
    }
}

/// The name of a resource map type, as `{:?}` shows it.
pub open spec fn spec_resource_map_type_name(t: ResourceMapType) -> Seq<char> {
    match t {
        ResourceMapType::Bitmaps => "Bitmaps"@,
        ResourceMapType::Sounds => "Sounds"@,
        ResourceMapType::Loc => "Loc"@,
    }
}

/// One character of a quoted string: quotes and backslashes escaped with a backslash, and the tab, carriage return,
/// line feed and null characters written as `\t`, `\r`, `\n` and `\0`.
pub open spec fn spec_escape_char(c: char) -> Seq<char> {
    if c == '"' {
        seq!['\\', '"']
    } else if c == '\\' {
        seq!['\\', '\\']
    } else if c == '\n' {
        seq!['\\', 'n']
    } else if c == '\r' {
        seq!['\\', 'r']
    } else if c == '\t' {
        seq!['\\', 't']
    } else if c == '\0' {
        seq!['\\', '0']
    } else {
        seq![c]
    }
}

/// The characters of `s`, each escaped by [`spec_escape_char`].
pub open spec fn spec_escape(s: Seq<char>) -> Seq<char>
    decreases s.len(),
{
    if s.len() == 0 {
        Seq::empty()
    } else {
        spec_escape(s.drop_last()) + spec_escape_char(s.last())
    }
}

/// A domain as error messages name it, in the form of `{:?}`.
pub open spec fn spec_domain_name(d: DomainType) -> Seq<char> {
    match d {
        DomainType::MapData => "MapData"@,
        DomainType::TagData => "TagData"@,
        DomainType::BSP(n) => "BSP("@ + spec_decimal_digits(n as nat) + ")"@,
        DomainType::BSPVertices(n) => "BSPVertices("@ + spec_decimal_digits(n as nat) + ")"@,
        DomainType::ResourceMapFile(t) => "ResourceMapFile("@ + spec_resource_map_type_name(t) + ")"@,
        DomainType::ResourceMapEntry(t, p) => "ResourceMapEntry("@ + spec_resource_map_type_name(t) + ", \""@
            + spec_escape(p@) + "\")"@,
        DomainType::ModelVertexData => "ModelVertexData"@,
        DomainType::ModelTriangleData => "ModelTriangleData"@,
    }
}

impl ResourceMapType {
    /// The name of the resource map type.
    pub fn name(self) -> (r: &'static str)
        ensures
            r@ == spec_resource_map_type_name(self),
    {
        let r = match self {
            ResourceMapType::Bitmaps => "Bitmaps",
            ResourceMapType::Sounds => "Sounds",
            ResourceMapType::Loc => "Loc",
        };
        proof {
            reveal_strlit("Bitmaps");
            reveal_strlit("Sounds");
            reveal_strlit("Loc");
        }
        r
    }
}

/// Append `c` to `out`, escaped as [`spec_escape_char`] says.
fn push_escaped(out: &mut String, c: char)
    ensures
        final(out)@ == old(out)@ + spec_escape_char(c),
{
    if c == '"' || c == '\\' || c == '\n' || c == '\r' || c == '\t' || c == '\0' {
        string_push(out, '\\');
        if c == '\n' {
            string_push(out, 'n');
        } else if c == '\r' {
            string_push(out, 'r');
        } else if c == '\t' {
            string_push(out, 't');
        } else if c == '\0' {
            string_push(out, '0');
        } else {
            string_push(out, c);
        }
    } else {
        string_push(out, c);
    }
}

impl DomainType {
    /// The domain as error messages name it, in the form of `{:?}`.
    pub fn name(&self) -> (r: String)
        ensures
            r@ == spec_domain_name(*self),
    {
        match self {
            DomainType::MapData => "MapData".to_owned(),
            DomainType::TagData => "TagData".to_owned(),
            DomainType::BSP(n) => {
                let mut r = "BSP(".to_owned();
                r.append(format_decimal(*n).as_str());
                r.append(")");
                r
            },
            DomainType::BSPVertices(n) => {
                let mut r = "BSPVertices(".to_owned();
                r.append(format_decimal(*n).as_str());
                r.append(")");
                r
            },
            DomainType::ResourceMapFile(t) => {
                let mut r = "ResourceMapFile(".to_owned();
                r.append(t.name());
                r.append(")");
                r
            },
            DomainType::ResourceMapEntry(t, p) => {
                let mut r = "ResourceMapEntry(".to_owned();
                r.append(t.name());
                r.append(", \"");
                let chars = chars_of(p.as_str());
                let ghost start = r@;
                let mut i: usize = 0;
                while i < chars.len()
                    invariant
                        i <= chars@.len(),
                        chars@ == p@,
                        r@ == start + spec_escape(chars@.take(i as int)),
                    decreases chars@.len() - i,
                {
                    proof {
                        assert(chars@.take(i + 1).drop_last() =~= chars@.take(i as int));
                    }
                    push_escaped(&mut r, chars[i]);
                    i = i + 1;
                }
                assert(chars@.take(i as int) =~= p@);
                r.append("\")");
                r
            },
            DomainType::ModelVertexData => "ModelVertexData".to_owned(),
            DomainType::ModelTriangleData => "ModelTriangleData".to_owned(),
        }
    }
}

/// Looking up the null terminated UTF-8 string at `address` in a domain: `Err(true)` where the address is past the
/// domain's data, `Err(false)` where the domain is missing or the address is below its base.
pub open spec fn spec_c_string_in_domain(domain: Option<(Seq<u8>, usize)>, address: int) -> Result<Option<Seq<u8>>, bool> {
    match domain {
        None => Err(false),
        Some((d, base)) => if address < base {
            Err(false)
        } else if address - base > d.len() {
            Err(true)
        } else {
            Ok(spec_c_string_at(d, base as int, address))
        },
    }
}

} // verus!
