use ringhopper::error::{Error, RinghopperResult};
use ringhopper::map::{CacheMap, DomainType};
use ringhopper::parse::TagData;
use ringhopper::primitive::data::Data;
use ringhopper::primitive::group::TagGroup;
use ringhopper::primitive::reflexive::Reflexive;
use ringhopper::tag::{ParseStrictness, PrimaryTagStruct, TagFile, TagFileHeader};

#[derive(Default)]
struct UnicodeStringList {
    pub strings: Reflexive<String>,
}

#[derive(Default, Clone, PartialEq, Debug)]
struct String {
    pub string: Data,
}

impl TagData for String {
    type Model = <Data as TagData>::Model;

    fn size() -> usize {
        Data::size()
    }
    fn read_from_tag_file(data: &[u8], at: usize, struct_end: usize, extra_data_cursor: &mut usize) -> RinghopperResult<Self> {
        Ok(Self { string: Data::read_from_tag_file(data, at, struct_end, extra_data_cursor)? })
    }
    fn write_to_tag_file(&self, data: &mut Vec<u8>, at: usize, struct_end: usize) -> RinghopperResult<()> {
        self.string.write_to_tag_file(data, at, struct_end)
    }
    fn read_from_map<M: CacheMap>(map: &M, address: usize, domain_type: &DomainType) -> RinghopperResult<Self> {
        Ok(Self { string: Data::read_from_map(map, address, domain_type)? })
    }
}

impl TagData for UnicodeStringList {
    type Model = <Reflexive<String> as TagData>::Model;

    fn size() -> usize {
        Reflexive::<String>::size()
    }
    fn read_from_tag_file(data: &[u8], at: usize, struct_end: usize, extra_data_cursor: &mut usize) -> RinghopperResult<Self> {
        Ok(Self { strings: Reflexive::<String>::read_from_tag_file(data, at, struct_end, extra_data_cursor)? })
    }
    fn write_to_tag_file(&self, data: &mut Vec<u8>, at: usize, struct_end: usize) -> RinghopperResult<()> {
        self.strings.write_to_tag_file(data, at, struct_end)
    }
    fn read_from_map<M: CacheMap>(map: &M, address: usize, domain_type: &DomainType) -> RinghopperResult<Self> {
        Ok(Self { strings: Reflexive::<String>::read_from_map(map, address, domain_type)? })
    }
}

impl PrimaryTagStruct for UnicodeStringList {
    fn group() -> TagGroup {
        TagGroup::UnicodeStringList
    }

    fn version() -> u16 {
        1
    }
}

const STRINGS: [&str; 5] = [
    "This is a test string.",
    "This is another test string.\r\nAnd it has multiple lines!",
    "And this is one final test string.",
    "",
    "Okay, this is the actual test string. I wanted to add an empty one, too.",
];

fn utf16(s: &str) -> Vec<u8> {
    let mut data: Vec<u8> = s.encode_utf16().map(|f| f.to_le_bytes()).flatten().collect();
    data.push(0);
    data.push(0);
    data
}

/// The tag file of a unicode string list holding `STRINGS`, laid out byte by byte; its CRC32 was computed
/// separately.
fn test_unicode_string_list_file() -> Vec<u8> {
    let mut body = Vec::new();
    body.extend_from_slice(&5u32.to_be_bytes());
    body.extend_from_slice(&[0u8; 8]);
    for s in STRINGS {
        body.extend_from_slice(&(utf16(s).len() as u32).to_be_bytes());
        body.extend_from_slice(&[0u8; 16]);
    }
    for s in STRINGS {
        body.extend_from_slice(&utf16(s));
    }
    let mut file = Vec::new();
    file.extend_from_slice(&[0u8; 36]);
    file.extend_from_slice(b"ustr");
    file.extend_from_slice(&0x58C5D320u32.to_be_bytes());
    file.extend_from_slice(&0x40u32.to_be_bytes());
    file.extend_from_slice(&[0u8; 8]);
    file.extend_from_slice(&1u16.to_be_bytes());
    file.extend_from_slice(&0xFFu16.to_be_bytes());
    file.extend_from_slice(b"blam");
    file.extend_from_slice(&body);
    file
}

fn read_test_unicode_string_list() -> (Vec<u8>, UnicodeStringList) {
    let data = test_unicode_string_list_file();
    let list = TagFile::read_tag_from_file_buffer::<UnicodeStringList>(&data, ParseStrictness::Strict).expect("should be valid");
    (data, list)
}

#[test]
fn parse_unicode_string_list() {
    let (data, string_list) = read_test_unicode_string_list();

    let utf16_matches = |string_index: usize, expected: &str| {
        let mut data: Vec<u8> = expected.encode_utf16().map(|f| f.to_le_bytes()).flatten().collect();
        data.push(0);
        data.push(0);

        assert_eq!(string_list.strings.items[string_index].string.bytes.as_slice(), data);
    };

    utf16_matches(0, "This is a test string.");
    utf16_matches(1, "This is another test string.\r\nAnd it has multiple lines!");
    utf16_matches(2, "And this is one final test string.");
    utf16_matches(3, "");
    utf16_matches(4, "Okay, this is the actual test string. I wanted to add an empty one, too.");

    // If we convert it back to a tag file, it should match.
    let reparsed = TagFile::to_tag_file(&string_list).unwrap();
    assert_eq!(data, reparsed.as_slice());
}

#[test]
fn tag_file_checks() {
    let data = test_unicode_string_list_file();

    // A changed byte after the header breaks the CRC32 unless parsing is relaxed.
    let mut broken = data.clone();
    let last = broken.len() - 3;
    broken[last] ^= 1;
    assert!(matches!(TagFile::read_tag_from_file_buffer::<UnicodeStringList>(&broken, ParseStrictness::Strict), Err(Error::ChecksumMismatch)));
    assert!(TagFile::read_tag_from_file_buffer::<UnicodeStringList>(&broken, ParseStrictness::Relaxed).is_ok());

    // The CRC32 can be switched off.
    let mut ignored = broken.clone();
    ignored[0x28..0x2C].copy_from_slice(&[0xFF; 4]);
    assert!(TagFile::read_tag_from_file_buffer::<UnicodeStringList>(&ignored, ParseStrictness::Strict).is_ok());

    // A bad header.
    let mut bad_header = data.clone();
    bad_header[0x3C] = b'B';
    assert!(matches!(TagFile::load_header_and_data(&bad_header, ParseStrictness::Strict), Err(Error::InvalidTagFile)));

    // Wrong version.
    let mut wrong_version = data.clone();
    wrong_version[0x39] = 2;
    assert!(matches!(TagFile::read_tag_from_file_buffer::<UnicodeStringList>(&wrong_version, ParseStrictness::Relaxed), Err(Error::TagHeaderGroupVersionMismatch)));

    // Wrong group.
    let mut wrong_group = data.clone();
    wrong_group[0x24..0x28].copy_from_slice(b"bitm");
    assert!(matches!(TagFile::read_tag_from_file_buffer::<UnicodeStringList>(&wrong_group, ParseStrictness::Relaxed), Err(Error::TagHeaderGroupTypeMismatch)));

    // Leftover data.
    let mut leftover = data.clone();
    leftover.push(0);
    assert!(matches!(TagFile::read_tag_from_file_buffer::<UnicodeStringList>(&leftover, ParseStrictness::Relaxed), Err(Error::TagParseFailure)));

    // Too short.
    assert!(TagFile::load_header_and_data(&data[..0x20], ParseStrictness::Strict).is_err());
}

#[test]
fn header_fields() {
    let data = test_unicode_string_list_file();
    let (header, after) = TagFile::load_header_and_data(&data, ParseStrictness::Strict).unwrap();
    assert_eq!(TagGroup::UnicodeStringList, header.group);
    assert_eq!(1, header.version);
    assert_eq!(0x58C5D320, header.crc32);
    assert_eq!(data.len() - 0x40, after.len());
    assert!(header.validate().is_ok());
    assert_eq!(0x40, <TagFileHeader as TagData>::size());
}

#[test]
fn written_tag_file_reads_back() {
    let mut list = UnicodeStringList::default();
    list.strings.items.push(String { string: Data::new(utf16("first")) });
    list.strings.items.push(String { string: Data::new(Vec::new()) });
    list.strings.items.push(String { string: Data::new(utf16("third")) });
    let file = TagFile::to_tag_file(&list).unwrap();
    assert_eq!(file.len(), 0x40 + 12 + 3 * 20 + 12 + 12);
    for strictness in [ParseStrictness::Strict, ParseStrictness::Relaxed] {
        let read = TagFile::read_tag_from_file_buffer::<UnicodeStringList>(&file, strictness).unwrap();
        assert_eq!(read.strings.items, list.strings.items);
    }
}

#[test]
fn written_tag_file_header() {
    let mut list = UnicodeStringList::default();
    list.strings.items.push(String { string: Data::new(utf16("header")) });
    let file = TagFile::to_tag_file(&list).unwrap();
    assert!(file.len() >= 0x40 + UnicodeStringList::size());
    assert_eq!(&file[0x00..0x24], &[0u8; 0x24][..]);
    assert_eq!(&file[0x24..0x28], b"ustr");
    assert_eq!(&file[0x2C..0x30], &0x40u32.to_be_bytes());
    assert_eq!(&file[0x30..0x38], &[0u8; 8]);
    assert_eq!(&file[0x38..0x3A], &1u16.to_be_bytes());
    assert_eq!(&file[0x3A..0x3C], &[0, 0xFF]);
    assert_eq!(&file[0x3C..0x40], b"blam");
}
