use ringhopper::endian::{BigEndian, LittleEndian};
use ringhopper::error::Error;
use ringhopper::parse::{SimpleTagData, TagData, MAX_ARRAY_LENGTH, fits, into_u32};

#[test]
fn usize_is_u32_when_parsing_tags() {
    let expected_size = 0x12345678usize;

    let mut data = [0u8; 4];
    expected_size.write::<BigEndian>(&mut data, 0, 4).expect("should work");
    assert_eq!(expected_size, usize::read_from_tag_file(&data, 0, 4, &mut 0).unwrap());

    let too_big_size = match MAX_ARRAY_LENGTH.checked_add(1) {
        Some(n) => n,
        None => return // can't test array limit if the array limit is usize's integer limit (e.g. we're on 32-bit) so just return now
    };
    assert!(matches!(too_big_size.write::<BigEndian>(&mut data, 0, 4), Err(Error::ArrayLimitExceeded)));
    assert_eq!(expected_size, usize::read_from_tag_file(&data, 0, 4, &mut 0).unwrap()); // is unchanged
}

#[test]
fn numbers_are_big_endian_in_tag_files() {
    let mut data = [0u8; 6];
    0x1234u16.write::<BigEndian>(&mut data, 0, 6).unwrap();
    0x89ABCDEFu32.write::<LittleEndian>(&mut data, 2, 6).unwrap();
    assert_eq!(data, [0x12, 0x34, 0xEF, 0xCD, 0xAB, 0x89]);
    assert_eq!(0x1234u16, u16::read_from_tag_file(&data, 0, 6, &mut 0).unwrap());
    assert_eq!(0x89ABCDEFu32, u32::read::<LittleEndian>(&data, 2, 6).unwrap());
    assert_eq!(-1i16, i16::read::<BigEndian>(&[0xFF, 0xFF], 0, 2).unwrap());
}

#[test]
fn reading_out_of_bounds_fails() {
    let data = [0u8; 3];
    assert_eq!(Err(Error::TagParseFailure), u32::read_from_tag_file(&data, 0, 3, &mut 0));
    assert_eq!(Err(Error::TagParseFailure), u8::read::<BigEndian>(&data, 3, 3));
    assert_eq!(Err(Error::SizeLimitExceeded), u16::read::<BigEndian>(&data, usize::MAX, 3));
}

#[test]
fn fits_and_into_u32() {
    assert_eq!(Ok(10), fits(4, 6, 10));
    assert_eq!(Err(Error::TagParseFailure), fits(5, 6, 10));
    assert_eq!(Err(Error::SizeLimitExceeded), fits(2, usize::MAX, 10));
    assert_eq!(Ok(7u32), into_u32(7));
    if let Some(n) = 0xFFFFFFFFusize.checked_add(1) {
        assert_eq!(Err(Error::ArrayLimitExceeded), into_u32(n));
    }
}

#[test]
fn bool_and_byte_roundtrip() {
    let mut data = [0u8; 2];
    true.write::<BigEndian>(&mut data, 0, 2).unwrap();
    (-2i8).write::<BigEndian>(&mut data, 1, 2).unwrap();
    assert_eq!(data, [1, 0xFE]);
    assert_eq!(true, bool::read::<BigEndian>(&data, 0, 2).unwrap());
    assert_eq!(-2i8, i8::read::<BigEndian>(&data, 1, 2).unwrap());
    assert_eq!(4, <u32 as TagData>::size());
}
