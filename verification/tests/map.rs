use ringhopper::engine::{
    Engine, EngineBaseMemoryAddress, EngineBitmapOptions, EngineCacheFileSize, EngineCacheParser, EngineCompressionType,
    EngineRequiredTags,
};
use ringhopper::error::Error;
use ringhopper::map::{CacheMap, DomainType, ResourceMapType, Tag};
use ringhopper::parse::TagData;
use ringhopper::primitive::data::{BSPVertexData, Data, FileData, ID};
use ringhopper::primitive::group::TagGroup;
use ringhopper::primitive::path::{TagPath, TagReference};
use ringhopper::primitive::reflexive::Reflexive;
use ringhopper::tag_array::{get_all_tags, CachedTagRecord};

fn engine(compressed_models: bool, external_bsps: bool) -> &'static Engine {
    Box::leak(Box::new(Engine {
        name: "test",
        display_name: "Test engine",
        version: None,
        build: None,
        build_target: false,
        custom: false,
        fallback: false,
        cache_default: false,
        cache_file_version: 0,
        max_script_nodes: 0,
        max_tag_space: 0,
        external_bsps,
        external_models: false,
        compressed_models,
        data_alignment: 4,
        bitmap_options: EngineBitmapOptions {
            swizzled: false,
            texture_dimension_must_modulo_block_size: false,
            cubemap_faces_stored_separately: false,
            alignment: 4,
        },
        resource_maps: None,
        compression_type: EngineCompressionType::Uncompressed,
        max_cache_file_size: EngineCacheFileSize { user_interface: 0, singleplayer: 0, multiplayer: 0 },
        base_memory_address: EngineBaseMemoryAddress { address: 0, inferred: false },
        required_tags: EngineRequiredTags { all: &[], user_interface: &[], singleplayer: &[], multiplayer: &[] },
        cache_parser: EngineCacheParser::PC,
        obfuscated_header_layout: false,
    }))
}

/// A map held in memory: its tag data starts at 0x1000, one BSP's data at 0x2000, that BSP's vertices and the
/// sounds resource map at 0.
struct TestMap {
    tag_data: Vec<u8>,
    bsp: Vec<u8>,
    vertices: Vec<u8>,
    sounds: Vec<u8>,
    map_data: Vec<u8>,
    tags: Vec<Tag>,
    engine: &'static Engine,
}

impl CacheMap for TestMap {
    fn get_name(&self) -> &str {
        "test"
    }
    fn get_build_string(&self) -> &str {
        "01.00.00.0000"
    }
    fn get_engine(&self) -> &'static Engine {
        self.engine
    }
    fn get_domain(&self, domain: &DomainType) -> Option<(&[u8], usize)> {
        match domain {
            DomainType::TagData => Some((self.tag_data.as_slice(), 0x1000)),
            DomainType::BSP(0) => Some((self.bsp.as_slice(), 0x2000)),
            DomainType::BSPVertices(0) => Some((self.vertices.as_slice(), 0)),
            DomainType::ResourceMapFile(ResourceMapType::Sounds) => Some((self.sounds.as_slice(), 0)),
            DomainType::MapData => Some((self.map_data.as_slice(), 0)),
            _ => None,
        }
    }
    fn get_tag_by_id(&self, id: ID) -> Option<&Tag> {
        match id.index() {
            Some(i) if id.salt() == Some(0x6174) => self.tags.get(i as usize),
            _ => None,
        }
    }
    fn get_tag(&self, path: &TagPath) -> Option<&Tag> {
        self.tags.iter().find(|t| t.tag_path == *path)
    }
    fn get_scenario_tag(&self) -> &Tag {
        &self.tags[0]
    }
    fn get_all_tags(&self) -> Vec<TagPath> {
        self.tags.iter().map(|t| t.tag_path.clone()).collect()
    }
}

fn test_map() -> TestMap {
    let mut tag_data = vec![0u8; 0x40];
    // a u32 at 0x1000
    tag_data[0..4].copy_from_slice(&0x12345678u32.to_le_bytes());
    // data header at 0x1010: 4 bytes at 0x1030
    tag_data[0x10..0x14].copy_from_slice(&4u32.to_le_bytes());
    tag_data[0x1C..0x20].copy_from_slice(&0x1030u32.to_le_bytes());
    tag_data[0x30..0x34].copy_from_slice(&[1, 2, 3, 4]);
    // reflexive at 0x1020: three u16 at 0x1034
    tag_data[0x20..0x24].copy_from_slice(&3u32.to_le_bytes());
    tag_data[0x24..0x28].copy_from_slice(&0x1034u32.to_le_bytes());
    tag_data[0x34..0x3A].copy_from_slice(&[0x01, 0x00, 0x02, 0x00, 0x03, 0x00]);
    let mut bsp = vec![0u8; 0x20];
    // vertex data header at 0x2000: 4 bytes at address 0
    bsp[0..4].copy_from_slice(&4u32.to_le_bytes());
    TestMap {
        tag_data,
        bsp,
        vertices: vec![9, 8, 7, 6, 5, 4, 3, 2, 1, 0],
        sounds: vec![0xAA, 0xBB, 0xCC, 0xDD],
        map_data: vec![0x11, 0x22, 0x33, 0x44],
        tags: vec![Tag {
            tag_path: TagPath::new("levels\\test\\test", TagGroup::Scenario).unwrap(),
            address: 0x1000,
            domain: DomainType::TagData,
        }],
        engine: engine(false, false),
    }
}

#[test]
fn map_reads_simple_data_little_endian() {
    let map = test_map();
    assert_eq!(u32::read_from_map(&map, 0x1000, &DomainType::TagData).unwrap(), 0x12345678);
    assert_eq!(u16::read_from_map(&map, 0x1034, &DomainType::TagData).unwrap(), 1);
}

#[test]
fn map_simple_data_out_of_bounds() {
    let map = test_map();
    match u32::read_from_map(&map, 0x103E, &DomainType::TagData) {
        Err(Error::MapDataOutOfBounds(m)) => assert_eq!(m, "cannot read 0x0004 bytes from TagData"),
        _ => panic!("expected an out of bounds error"),
    }
    match u32::read_from_map(&map, 0, &DomainType::BSP(7)) {
        Err(Error::MapDataOutOfBounds(m)) => assert_eq!(m, "cannot read 0x0004 bytes from BSP(7)"),
        _ => panic!("expected an out of bounds error"),
    }
}

#[test]
fn map_bsp_falls_back_to_tag_data() {
    let map = test_map();
    // 0x1000 is below the BSP's base, so not found there; 0x2030 is past it, so the tag data is tried
    assert!(u32::read_from_map(&map, 0x1000, &DomainType::BSP(0)).is_err());
    assert!(u32::read_from_map(&map, 0x2030, &DomainType::BSP(0)).is_err());
    assert_eq!(map.get_data_at_address(0x1000, &DomainType::TagData, 4), Some(&[0x78, 0x56, 0x34, 0x12][..]));
}

#[test]
fn map_reads_data() {
    let map = test_map();
    let data = Data::read_from_map(&map, 0x1010, &DomainType::TagData).unwrap();
    assert_eq!(data.bytes, vec![1, 2, 3, 4]);
    // An empty header gives empty data
    let empty = Data::read_from_map(&map, 0x1008, &DomainType::TagData).unwrap();
    assert!(empty.bytes.is_empty());
}

#[test]
fn map_data_out_of_bounds_message() {
    let mut map = test_map();
    map.tag_data[0x10..0x14].copy_from_slice(&0x40u32.to_le_bytes());
    match Data::read_from_map(&map, 0x1010, &DomainType::TagData) {
        Err(Error::MapDataOutOfBounds(m)) => assert_eq!(m, "can't read 0x00001030[0x64] bytes from TagData"),
        _ => panic!("expected an out of bounds error"),
    }
}

#[test]
fn map_reads_file_data_from_sounds() {
    let mut map = test_map();
    // flags bit 0: sounds.map; file offset 1, 2 bytes
    map.tag_data[0x10..0x14].copy_from_slice(&2u32.to_le_bytes());
    map.tag_data[0x14..0x18].copy_from_slice(&1u32.to_le_bytes());
    map.tag_data[0x18..0x1C].copy_from_slice(&1u32.to_le_bytes());
    let data = FileData::read_from_map(&map, 0x1010, &DomainType::TagData).unwrap();
    assert_eq!(data.bytes, vec![0xBB, 0xCC]);
    // without the flag: the map data
    map.tag_data[0x14..0x18].copy_from_slice(&0u32.to_le_bytes());
    let data = FileData::read_from_map(&map, 0x1010, &DomainType::TagData).unwrap();
    assert_eq!(data.bytes, vec![0x22, 0x33]);
    // out of bounds
    map.tag_data[0x18..0x1C].copy_from_slice(&3u32.to_le_bytes());
    match FileData::read_from_map(&map, 0x1010, &DomainType::TagData) {
        Err(Error::MapDataOutOfBounds(m)) => assert_eq!(m, "can't read 0x00000003[00000002] bytes from MapData"),
        _ => panic!("expected an out of bounds error"),
    }
}

#[test]
fn map_reads_reflexive() {
    let map = test_map();
    let r = Reflexive::<u16>::read_from_map(&map, 0x1020, &DomainType::TagData).unwrap();
    assert_eq!(r.items, vec![1, 2, 3]);
}

#[test]
fn map_reflexive_size_limit() {
    let mut map = test_map();
    map.tag_data[0x20..0x24].copy_from_slice(&u32::MAX.to_le_bytes());
    map.tag_data[0x24..0x28].copy_from_slice(&u32::MAX.to_le_bytes());
    // the items cannot all be in the map
    assert!(Reflexive::<Data>::read_from_map(&map, 0x1020, &DomainType::TagData).is_err());
}

fn write_reference(map: &mut TestMap, group: TagGroup, id: u32) {
    map.tag_data[0x00..0x04].copy_from_slice(&group.as_fourcc().to_le_bytes());
    map.tag_data[0x04..0x0C].copy_from_slice(&[0; 8]);
    map.tag_data[0x0C..0x10].copy_from_slice(&id.to_le_bytes());
}

#[test]
fn map_reads_tag_references() {
    let mut map = test_map();
    write_reference(&mut map, TagGroup::Bitmap, 0xFFFFFFFF);
    let r = TagReference::read_from_map(&map, 0x1000, &DomainType::TagData).unwrap();
    assert!(matches!(r, TagReference::Null(TagGroup::Bitmap)));

    write_reference(&mut map, TagGroup::Scenario, ID::new(Some(0), 0x6174).as_u32());
    let r = TagReference::read_from_map(&map, 0x1000, &DomainType::TagData).unwrap();
    match r {
        TagReference::SetTo(p) => assert_eq!(p.to_internal_path(), "levels\\test\\test.scenario"),
        _ => panic!("expected a set reference"),
    }

    write_reference(&mut map, TagGroup::Scenario, ID::new(Some(5), 0x6174).as_u32());
    match TagReference::read_from_map(&map, 0x1000, &DomainType::TagData) {
        Err(Error::MapDataOutOfBounds(m)) => assert_eq!(m, "invalid tag id 0xE1710005"),
        _ => panic!("expected an invalid tag id"),
    }
}

#[test]
fn map_reads_bsp_vertices() {
    let mut map = test_map();
    // the engine's models are not compressed, so nothing is read for compressed vertices
    let v = BSPVertexData::read_from_map_with_offset(&map, 0x2000, &DomainType::BSP(0), true, 1, 0, 1, 0).unwrap();
    assert!(v.bytes.is_empty());

    // with a combined address of 0, the vertices are looked up in the BSP's data; they are not there
    match BSPVertexData::read_from_map_with_offset(&map, 0x2000, &DomainType::BSP(0), false, 1, 0, 1, 0) {
        Err(Error::MapDataOutOfBounds(m)) => {
            assert_eq!(m, "can't read combined BSP vertex data 0x00002000[0x4] bytes from BSP(0)")
        },
        _ => panic!("expected an out of bounds error"),
    }

    // external BSPs read the rendered and lightmap vertices from the BSP's vertices
    map.engine = engine(true, true);
    let v = BSPVertexData::read_from_map_with_offset(&map, 0x2000, &DomainType::BSP(0), true, 0, 0, 1, 2).unwrap();
    assert_eq!(v.bytes, vec![7, 6, 5, 4, 3, 2, 1, 0]);
    match BSPVertexData::read_from_map_with_offset(&map, 0x2000, &DomainType::BSP(0), true, 1, 0, 0, 0) {
        Err(Error::MapDataOutOfBounds(m)) => {
            assert_eq!(m, "can't read render BSP vertex data 0x00000000[0x32] bytes from BSP(0)")
        },
        _ => panic!("expected an out of bounds error"),
    }
}

#[test]
fn bsp_vertices_alone_cannot_be_read() {
    let map = test_map();
    match BSPVertexData::read_from_map(&map, 0x2000, &DomainType::BSP(0)) {
        Err(Error::Other(m)) => {
            assert_eq!(m, "read_from_map is unimplemented for BSP vertex data; use read_from_map_with_offset instead")
        },
        _ => panic!("expected an error"),
    }
}

#[test]
fn domain_names() {
    assert_eq!(DomainType::MapData.name(), "MapData");
    assert_eq!(DomainType::BSPVertices(12).name(), "BSPVertices(12)");
    assert_eq!(DomainType::ResourceMapFile(ResourceMapType::Loc).name(), "ResourceMapFile(Loc)");
    assert_eq!(
        DomainType::ResourceMapEntry(ResourceMapType::Bitmaps, "a\"b\\c".to_owned()).name(),
        format!("{:?}", DomainType::ResourceMapEntry(ResourceMapType::Bitmaps, "a\"b\\c".to_owned()))
    );
}

#[test]
fn map_tag_by_index() {
    let map = test_map();
    assert!(map.get_tag_by_index(0).is_some());
    assert!(map.get_tag_by_index(1).is_none());
    assert!(map.get_tag_by_index(0x10000).is_none());
}

fn map_with_paths() -> TestMap {
    let mut map = test_map();
    let mut data = vec![0u8; 0x100];
    data[0x40..0x40 + 13].copy_from_slice(b"Weapons\\Gun\0\0");
    data[0x60..0x60 + 8].copy_from_slice(b"a:b\0\0\0\0\0");
    data[0x70..0x70 + 6].copy_from_slice(b"other\0");
    map.tag_data = data;
    map
}

fn record(group: TagGroup, index: u16, path_address: usize) -> CachedTagRecord {
    CachedTagRecord { group, id: ID::new(Some(index), 0x6174), path_address, data_address: 0x1000 + index as usize }
}

fn parse_failure(r: Result<(Vec<Option<Tag>>, Vec<(TagPath, ID)>), Error>) -> String {
    match r {
        Err(Error::MapParseFailure(m)) => m,
        _ => panic!("expected a map parse failure"),
    }
}

#[test]
fn tag_array_reads_tags_in_order() {
    let map = map_with_paths();
    let records = vec![
        record(TagGroup::Weapon, 0, 0x1040),
        CachedTagRecord { group: TagGroup::_Unset, id: ID::null(), path_address: 0, data_address: 0 },
        record(TagGroup::Bitmap, 2, 0x1070),
        record(TagGroup::Weapon, 3, 0x1070),
    ];
    let (tags, ids) = get_all_tags(&map, &records).unwrap();
    assert_eq!(tags.len(), 4);
    let first = tags[0].as_ref().unwrap();
    assert_eq!(first.tag_path.path(), "weapons\\gun");
    assert_eq!(first.tag_path.group(), TagGroup::Weapon);
    assert_eq!(first.address, 0x1000);
    assert!(matches!(first.domain, DomainType::TagData));
    assert!(tags[1].is_none());
    assert_eq!(tags[2].as_ref().unwrap().tag_path.path(), "other");
    assert_eq!(ids.len(), 3);
    assert_eq!(ids[0].0.path(), "weapons\\gun");
    assert_eq!(ids[0].1, records[0].id);
    assert_eq!(ids[2].0.group(), TagGroup::Weapon);
}

#[test]
fn tag_array_errors() {
    let map = map_with_paths();
    assert_eq!(parse_failure(get_all_tags(&map, &vec![record(TagGroup::Weapon, 1, 0x1040)])), "tag #0 has an invalid tag ID");
    assert_eq!(
        parse_failure(get_all_tags(&map, &vec![record(TagGroup::Weapon, 0, 0x5000)])),
        "unable to get the tag path for tag #0 due to a bad address 0x00005000"
    );
    assert_eq!(
        parse_failure(get_all_tags(&map, &vec![record(TagGroup::Weapon, 0, 0x1060)])),
        "unable to get the tag path for tag #0 (a:b) due to a parse failure: invalid tag path"
    );
    let twice = parse_failure(get_all_tags(&map, &vec![record(TagGroup::Bitmap, 0, 0x1070), record(TagGroup::Bitmap, 1, 0x1070)]));
    assert_eq!(twice, "multiple instances of tag other.bitmap detected");
    let too_many = vec![CachedTagRecord { group: TagGroup::_Unset, id: ID::null(), path_address: 0, data_address: 0 }; 0x10000];
    assert_eq!(parse_failure(get_all_tags(&map, &too_many)), "maximum tag count exceeded (map claims to have 65536 tags");
}
