use ringhopper::error::Error;
use ringhopper::map::{CacheMap, DomainType, Tag};
use ringhopper::resource::ResourceMap;

/// A resource map with two resources, `a` holding [1, 2] and `b\c` holding [3].
fn resource_map_bytes() -> Vec<u8> {
    let mut d = Vec::new();
    // header: type, path data offset, array offset, count
    for v in [1u32, 40, 16, 2] {
        d.extend_from_slice(&v.to_le_bytes());
    }
    // resources: path offset, data size, data offset
    for v in [0u32, 2, 46, 2, 1, 48] {
        d.extend_from_slice(&v.to_le_bytes());
    }
    // path data at 40
    d.extend_from_slice(b"a\0b\\c\0");
    // data at 46
    d.extend_from_slice(&[1, 2, 3]);
    d
}

#[test]
fn resource_map_lookup() {
    let map = ResourceMap::from_data(resource_map_bytes()).unwrap();
    assert_eq!(map.len(), 2);
    let first = map.get(0).unwrap();
    assert_eq!(first.get_path(), "a");
    assert_eq!(first.get_data(), &[1, 2]);
    assert_eq!(first.get_data_offset(), 46);
    let second = map.get_by_path("b\\c").unwrap();
    assert_eq!(second.get_data(), &[3]);
    assert!(map.get(2).is_none());
    assert!(map.get_by_path("d").is_none());
    assert_eq!(map.data().len(), 49);
    assert_eq!(map.into_data(), resource_map_bytes());
}

fn parse_error(data: Vec<u8>) -> String {
    match ResourceMap::from_data(data) {
        Err(Error::MapParseFailure(m)) => m,
        _ => panic!("expected a parse failure"),
    }
}

#[test]
fn resource_map_errors() {
    assert_eq!(
        parse_error(vec![0; 8]),
        "Resource map parse failure: can't read resource map header: TagParseFailure"
    );
    let mut d = resource_map_bytes();
    d[4..8].copy_from_slice(&100u32.to_le_bytes());
    assert_eq!(parse_error(d), "Resource map parse failure: path data offset 0x00000064 is out-of-bounds");
    let mut d = resource_map_bytes();
    d[36..40].copy_from_slice(&60u32.to_le_bytes());
    assert_eq!(
        parse_error(d),
        "Resource map parse failure: array index 1: can't get data offset: MapParseFailure(\"0x0000003C[0x00000001] out-of-bounds\")"
    );
    let mut d = resource_map_bytes();
    d[45] = b'x';
    assert_eq!(
        parse_error(d),
        "Resource map parse failure: array index 1: can't get path offset: MapParseFailure(\"0x00000002 has no C string\")"
    );
}

/// A map whose tag data holds C strings at 0x1000.
struct StringMap {
    tag_data: Vec<u8>,
}

impl CacheMap for StringMap {
    fn get_name(&self) -> &str {
        "strings"
    }
    fn get_build_string(&self) -> &str {
        ""
    }
    fn get_engine(&self) -> &'static ringhopper::engine::Engine {
        unreachable!()
    }
    fn get_domain(&self, domain: &DomainType) -> Option<(&[u8], usize)> {
        match domain {
            DomainType::TagData => Some((self.tag_data.as_slice(), 0x1000)),
            _ => None,
        }
    }
    fn get_tag_by_id(&self, _id: ringhopper::primitive::data::ID) -> Option<&Tag> {
        None
    }
    fn get_tag(&self, _path: &ringhopper::primitive::path::TagPath) -> Option<&Tag> {
        None
    }
    fn get_scenario_tag(&self) -> &Tag {
        unreachable!()
    }
    fn get_all_tags(&self) -> Vec<ringhopper::primitive::path::TagPath> {
        Vec::new()
    }
}

#[test]
fn map_c_strings() {
    let map = StringMap { tag_data: b"hello\0w\xFFrld\0open".to_vec() };
    assert_eq!(map.get_c_string_at_address(0x1000, &DomainType::TagData), Some("hello"));
    assert_eq!(map.get_c_string_at_address(0x1002, &DomainType::TagData), Some("llo"));
    assert_eq!(map.get_c_string_at_address(0x1006, &DomainType::TagData), None);
    assert_eq!(map.get_c_string_at_address(0x100C, &DomainType::TagData), None);
    assert_eq!(map.get_c_string_at_address(0x0FFF, &DomainType::TagData), None);
    assert_eq!(map.get_c_string_at_address(0x1000, &DomainType::MapData), None);
    assert_eq!(map.get_crc32(), None);
}
