use ringhopper::error::Error;
use ringhopper::parse::TagData;
use ringhopper::primitive::string32::String32;
use ringhopper::primitive::utf16::UTF16String;

#[test]
fn parse_string32() {
    let valid_bytes: [u8; 32] = ['v' as u8, 'a' as u8, 'l' as u8, 'i' as u8, 'd' as u8, 0, 0, 0, 0, 0, 0, 0, 0, 0, 0, 0, 0, 0, 0, 0, 0, 0, 0, 0, 0, 0, 0, 0, 0, 0, 0, 0];
    let valid = String32::from_bytes_lossy(&valid_bytes);
    assert_eq!("valid", valid.as_str());
    assert_eq!("valid", valid.as_str());

    let valid_dirty_bytes: [u8; 32] = ['v' as u8, 'a' as u8, 'l' as u8, 'i' as u8, 'd' as u8, 0, 'o' as u8, 'h' as u8, 0, 0, 0, 0, 0, 0, 0, 0, 1, 0, 0, 0, 0, 0, 0, 0, 0, 0, 0, 0, 0, 0, 0, 0];
    let valid_dirty = String32::from_bytes_lossy(&valid_dirty_bytes);
    assert_eq!("valid", valid_dirty.as_str());
    assert_eq!("valid", valid_dirty.as_str());
    assert_eq!(valid, valid_dirty);

    let invalid_bytes: [u8; 32] = ['v' as u8, 'a' as u8, 'l' as u8, 'i' as u8, 'd' as u8, 0x90, 0, 0, 0, 0, 0, 0, 0, 0, 0, 0, 0, 0, 0, 0, 0, 0, 0, 0, 0, 0, 0, 0, 0, 0, 0, 0];
    let invalid = String32::from_bytes_lossy(&invalid_bytes);
    assert_eq!("valid_", invalid.as_str());
    assert_eq!("valid_", invalid.as_str());

    let long_string = "asfdkhljaesrfewragaewrkguieqw4i7w43qe5iy9oewsrayuoirewquigwre5gisgisaerfuhgewrq5oiuh453iop;juji;ls";
    assert_eq!(Err(Error::String32SizeLimitExceeded), String32::from_str(long_string));

    assert_eq!(valid, String32::from_str("valid").expect("should be ok"));
    assert_eq!(valid, String32::read_from_tag_file(&valid_bytes, 0, valid_bytes.len(), &mut 0).unwrap());
    assert_eq!(valid_dirty, String32::read_from_tag_file(&valid_dirty_bytes, 0, valid_dirty_bytes.len(), &mut 0).unwrap());
    assert_eq!(invalid, String32::read_from_tag_file(&invalid_bytes, 0, invalid_bytes.len(), &mut 0).unwrap());
}

#[test]
fn string32_lossy_replacements() {
    // A full 32 bytes without a terminator keeps 31 of them.
    let full = [b'a'; 32];
    assert_eq!("a".repeat(31), String32::from_bytes_lossy(&full).as_str());

    // An ill-formed sequence and a real U+FFFD both become `_`, each once.
    let mut bytes = [0u8; 32];
    bytes[..8].copy_from_slice(&[b'x', 0xE2, 0x82, b'y', 0xEF, 0xBF, 0xBD, b'z']);
    assert_eq!("x_y_z", String32::from_bytes_lossy(&bytes).as_str());

    // Valid multi-byte characters are kept.
    let s = String32::from_str("h\u{e9}llo").unwrap();
    assert_eq!("h\u{e9}llo", s.as_str());
    assert_eq!("", String32::default().as_str());

    // 31 bytes fit, 32 do not.
    assert!(String32::from_str(&"b".repeat(31)).is_ok());
    assert_eq!(Err(Error::String32SizeLimitExceeded), String32::from_str(&"b".repeat(32)));
}

fn utf16_bytes(s: &str) -> Vec<u8> {
    let mut data: Vec<u8> = s.encode_utf16().map(|f| f.to_le_bytes()).flatten().collect();
    data.push(0);
    data.push(0);
    data
}

#[test]
fn utf16_roundtrip() {
    let s = UTF16String::from_str("Hello\r\nworld \u{1F600}");
    assert_eq!(utf16_bytes("Hello\r\nworld \u{1F600}"), s.get_utf16_bytes());
    assert_eq!("Hello\r\nworld \u{1F600}", s.get_string().unwrap().as_str());
    assert_eq!("Hello\r\nworld \u{1F600}", s.get_string_lossy().unwrap().as_str());
    assert_eq!(vec![0u8, 0u8], UTF16String::default().get_utf16_bytes());
    assert_eq!("", UTF16String::default().get_string().unwrap().as_str());
}

#[test]
fn utf16_from_str_repairs_line_breaks() {
    // A bare line feed gets a carriage return, a bare carriage return and control characters are dropped.
    let s = UTF16String::from_str("a\nb\rc\u{7}d");
    assert_eq!(utf16_bytes("a\r\nbcd"), s.get_utf16_bytes());
    assert_eq!("a\r\nbcd", s.get_string().unwrap().as_str());
}

#[test]
fn utf16_corrupt_data() {
    // Odd length.
    let odd = UTF16String::from_bytes(&[0x41, 0x00, 0x00]);
    assert!(matches!(odd.get_string(), Err(Error::InvalidTagData(_))));
    assert_eq!("", odd.get_string_lossy().unwrap_err().as_str());

    // Missing terminator.
    let unterminated = UTF16String::from_bytes(&[0x41, 0x00, 0x42, 0x00]);
    assert_eq!("AB", unterminated.get_string_lossy().unwrap_err().as_str());

    // Unpaired surrogate.
    let surrogate = UTF16String::from_bytes(&[0x00, 0xD8, 0x41, 0x00, 0x00, 0x00]);
    assert_eq!("\u{FFFD}A", surrogate.get_string_lossy().unwrap_err().as_str());

    // Early terminator.
    let early = UTF16String::from_bytes(&[0x41, 0x00, 0x00, 0x00, 0x42, 0x00, 0x00, 0x00]);
    assert_eq!("A", early.get_string_lossy().unwrap_err().as_str());

    // Valid.
    let valid = UTF16String::from_bytes(&utf16_bytes("ok"));
    assert_eq!("ok", valid.get_string().unwrap().as_str());
}

#[test]
fn utf16_tag_data_roundtrip() {
    let s = UTF16String::from_str("tag");
    let mut data = vec![0u8; 20];
    s.write_to_tag_file(&mut data, 0, 20).unwrap();
    assert_eq!(20 + 8, data.len());
    assert_eq!(&data[0..4], &[0, 0, 0, 8]);
    let mut cursor = 20;
    let back = UTF16String::read_from_tag_file(&data, 0, 20, &mut cursor).unwrap();
    assert_eq!(28, cursor);
    assert_eq!(s, back);
}

#[test]
fn utf16_display_and_parse() {
    let s: UTF16String = "hello".parse().unwrap();
    assert_eq!(s.to_string(), "hello");
    assert_eq!(UTF16String::from_str("wörld").to_string(), "wörld");
    let corrupt = UTF16String::from_bytes(&[0x00, 0xD8, 0x41, 0x00, 0x00, 0x00]);
    assert!(corrupt.get_string().is_err());
    assert_eq!(corrupt.to_string(), corrupt.get_string_lossy().unwrap_err().as_str());
}
