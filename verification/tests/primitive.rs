use ringhopper::error::Error;
use ringhopper::parse::{SimpleTagData, TagData};
use ringhopper::primitive::color::{ColorARGBInt, ColorARGBIntBytes};
use ringhopper::primitive::data::{calculate_padding_for_alignment, Address, Data, DataC, ReflexiveC, ID};
use ringhopper::primitive::group::TagGroup;
use ringhopper::primitive::path::{TagPath, TagReference, TagReferenceC};
use ringhopper::primitive::range::parse_range;
use ringhopper::primitive::string32::String32;
use ringhopper::primitive::reflexive::Reflexive;

#[test]
fn primitive_sizes() {
    assert_eq!(Address::simple_size(), 4);
    assert_eq!(ColorARGBInt::simple_size(), 4);
    assert_eq!(ColorARGBIntBytes::simple_size(), 4);
    assert_eq!(DataC::simple_size(), 4 * 5);
    assert_eq!(ID::simple_size(), 4);
    assert_eq!(ReflexiveC::<u32>::simple_size(), 4 * 3);
    assert_eq!(String32::simple_size(), 32);
    assert_eq!(TagReferenceC::simple_size(), 4 * 4);
    assert_eq!(std::mem::size_of::<ColorARGBInt>(), 4);
    assert_eq!(std::mem::size_of::<ColorARGBIntBytes>(), 4);
    assert_eq!(std::mem::size_of::<String32>(), 32);
}

#[test]
fn id_index_and_salt() {
    let value = ID::new(Some(0x1234), 0x5678);
    assert_eq!(value.index().unwrap(), 0x1234);
    assert_eq!(value.salt().unwrap(), 0x5678);
    assert!(ID::null().is_null());
    assert_eq!(ID::new(None, 0x5678).as_u32(), 0xFFFFFFFF);
    assert_eq!(ID::new(Some(5), 0x6174).as_u32(), 0xE1710005);
}

#[test]
fn reflexive_header_with_params() {
    let convenience: ReflexiveC<u32> = ReflexiveC::with_params(1024, Address { address: 0x12345678 });
    assert_eq!(convenience.count, 1024);
    assert_eq!(convenience.address, Address { address: 0x12345678 });
}

#[test]
fn padding_for_alignment() {
    assert_eq!(127, calculate_padding_for_alignment(1, 128));
    assert_eq!(64, calculate_padding_for_alignment(64, 128));
    assert_eq!(0, calculate_padding_for_alignment(128, 128));
    assert_eq!(0, calculate_padding_for_alignment(0, 128));
}

#[test]
fn group_fourcc_and_names() {
    assert_eq!(TagGroup::Bitmap.as_fourcc(), 0x6269746D);
    assert_eq!(TagGroup::from_fourcc(0x6269746D), Some(TagGroup::Bitmap));
    assert_eq!(TagGroup::from_fourcc(TagGroup::Weapon.as_fourcc()), Some(TagGroup::Weapon));
    assert_eq!(TagGroup::from_fourcc(0x12345678), None);
    assert_eq!(TagGroup::from_str("weapon").unwrap(), TagGroup::Weapon);
    assert_eq!(TagGroup::Weapon.as_str(), "weapon");
    assert!(matches!(TagGroup::from_str("not a group"), Err(Error::InvalidTagPath) | Err(_)));
    assert_eq!(TagGroup::Weapon.subgroup(), Some(TagGroup::Item));
    assert_eq!(TagGroup::Item.subgroup(), Some(TagGroup::Object));
    assert_eq!(TagGroup::Object.subgroup(), None);
}

#[test]
fn tag_path_examples() {
    let (path, group) = TagPath::split_str_path("weapons\\myweapon\\myweapon.weapon").unwrap();
    assert_eq!("weapons\\myweapon\\myweapon", path);
    assert_eq!(TagGroup::Weapon, group);

    let path = TagPath::from_path("weapons\\myweapon\\myweapon.weapon").unwrap();
    assert_eq!("weapons\\myweapon\\myweapon", path.path());
    assert_eq!(TagGroup::Weapon, path.group());
    assert_eq!("myweapon", path.base_name());
    assert_eq!(path.to_internal_path(), "weapons\\myweapon\\myweapon.weapon");
    assert_eq!("weapons/myweapon/myweapon.weapon", path.to_zip_path());
    let native = path.to_native_path();
    let components: Vec<&str> = std::path::Path::new(&native).iter().map(|c| c.to_str().unwrap()).collect();
    assert_eq!(vec!["weapons", "myweapon", "myweapon.weapon"], components);

    let path = TagPath::from_path("weapons\\myweapon\\myweapon.isthebest.weapon").unwrap();
    assert_eq!(path.path(), "weapons\\myweapon\\myweapon.isthebest");
    assert_eq!(path.group(), TagGroup::Weapon);

    let path = TagPath::new("weapons/myweapon/myweapon.isthebest", TagGroup::Weapon).unwrap();
    assert_eq!(path.path(), "weapons\\myweapon\\myweapon.isthebest");

    let mut path = TagPath::new("weapons\\myweapon\\myweapon.isthebest", TagGroup::Weapon).unwrap();
    assert_eq!(path.path(), "weapons\\myweapon\\myweapon.isthebest");
    path.set_group(TagGroup::Model);
    assert_eq!(path.group(), TagGroup::Model);
}

#[test]
fn tag_path_normalization() {
    let path = TagPath::new("Weapons\\\\MyWeapon\\MyWeapon", TagGroup::Weapon).unwrap();
    assert_eq!(path.path(), "weapons\\myweapon\\myweapon");
    assert!(matches!(TagPath::new("\\weapons\\a", TagGroup::Weapon), Err(Error::InvalidTagPath)));
    assert!(matches!(TagPath::new("weapons\\a?b", TagGroup::Weapon), Err(Error::InvalidTagPath)));
    assert!(matches!(TagPath::new("weapons\\con\\a", TagGroup::Weapon), Err(Error::InvalidTagPath)));
}

#[test]
fn tag_reference_examples() {
    let reference = TagReference::Null(TagGroup::Model);
    assert!(reference.is_null());
    let path = TagPath::from_path("weapons\\someweapon\\someweapon.weapon").unwrap();
    let reference = TagReference::SetTo(path.clone());
    assert!(reference.is_set());
    assert_eq!(reference.group(), TagGroup::Weapon);
    assert_eq!(*reference.path().expect("should be a path here"), path);
}

#[test]
fn ranges() {
    assert_eq!(parse_range("0-2,5", 10), Ok(vec![(0, 2), (5, 5)]));
    assert_eq!(parse_range("5,0-2,3", 10), Ok(vec![(0, 3), (5, 5)]));
    assert_eq!(parse_range("0-5,2-3", 10), Ok(vec![(0, 5)]));
    assert_eq!(parse_range("0-5,4-6", 10), Ok(vec![(0, 6)]));
    assert_eq!(parse_range("0-5,6-7", 10), Ok(vec![(0, 7)]));
    assert_eq!(parse_range("0-5,7-8", 10), Ok(vec![(0, 5), (7, 8)]));
    assert_eq!(parse_range("*", 3), Ok(vec![(0, 2)]));
    assert_eq!(parse_range("*", 0), Ok(vec![]));
    assert_eq!(parse_range("e", 4), Ok(vec![(3, 3)]));
    assert_eq!(parse_range("1-e", 4), Ok(vec![(1, 3)]));
}

#[test]
fn range_errors() {
    assert_eq!(parse_range("x", 4), Err("invalid character in matcher"));
    assert_eq!(parse_range("", 4), Err("empty range"));
    assert_eq!(parse_range("1,,2", 4), Err("empty range"));
    assert_eq!(parse_range("-1", 4), Err("range cannot start or end with `-`"));
    assert_eq!(parse_range("3-1", 4), Err("start of range must be before the end"));
    assert_eq!(parse_range("5", 3), Err("out of bounds"));
    assert_eq!(parse_range("0", 0), Err("out of bounds"));
    assert_eq!(parse_range("1-2-3", 4), Err("only one `-` allowed per range"));
    assert_eq!(parse_range("1e", 4), Err("cannot use exponents"));
}

#[test]
fn data_roundtrip_in_tag_file() {
    let data = Data::new(vec![1, 2, 3]);
    let mut file = vec![0u8; 20];
    data.write_to_tag_file(&mut file, 0, 20).unwrap();
    assert_eq!(file.len(), 23);
    let mut cursor = 20;
    let read = Data::read_from_tag_file(&file, 0, 20, &mut cursor).unwrap();
    assert_eq!(read, data);
    assert_eq!(cursor, 23);
}

#[test]
fn tag_reference_roundtrip_in_tag_file() {
    let reference = TagReference::SetTo(TagPath::from_path("weapons\\pistol\\pistol.weapon").unwrap());
    let mut file = vec![0u8; 16];
    reference.write_to_tag_file(&mut file, 0, 16).unwrap();
    let mut cursor = 16;
    let read = TagReference::read_from_tag_file(&file, 0, 16, &mut cursor).unwrap();
    assert_eq!(cursor, file.len());
    match read {
        TagReference::SetTo(p) => assert_eq!(p.to_internal_path(), "weapons\\pistol\\pistol.weapon"),
        _ => panic!("expected a set reference"),
    }

    let null = TagReference::Null(TagGroup::Bitmap);
    let mut file = vec![0u8; 16];
    null.write_to_tag_file(&mut file, 0, 16).unwrap();
    let mut cursor = 16;
    let read = TagReference::read_from_tag_file(&file, 0, 16, &mut cursor).unwrap();
    assert!(matches!(read, TagReference::Null(TagGroup::Bitmap)));
    assert_eq!(cursor, 16);
}

#[test]
fn string32_roundtrip() {
    let s = String32::from_str("levels\\a10").unwrap();
    assert_eq!(s.as_str(), "levels\\a10");
    assert!(matches!(String32::from_str("0123456789012345678901234567890123"), Err(Error::String32SizeLimitExceeded)));
}

#[test]
fn error_messages() {
    assert_eq!(Error::InvalidTagPath.as_str(), "invalid tag path");
    assert_eq!(Error::ArrayLimitExceeded.as_str(), "array limit of 0xFFFFFFFF (4294967295) exceeded");
    assert_eq!(Error::MapDataOutOfBounds("x".to_owned()).as_str(), "x");
    let path = TagPath::from_path("a\\b.weapon").unwrap();
    let m = Error::TagNotFound(path).as_str();
    assert!(m == "tag `a\\b.weapon` not found" || m == "tag `a/b.weapon` not found");
}

#[test]
fn id_from_u32() {
    assert!(ID::from_u32_checked(0xFFFFFFFF).unwrap().is_null());
    assert_eq!(ID::from_u32_checked(0xE1710005).unwrap().index(), Some(5));
    assert!(!ID::from_u32(0x12345678).is_valid());
    assert!(matches!(ID::from_u32_checked(0x12345678), Err(Error::InvalidID)));
}

#[test]
fn group_subgroup_tree() {
    assert_eq!(TagGroup::Weapon.full_subgroup_tree(), [TagGroup::Weapon, TagGroup::Item, TagGroup::Object]);
}

#[test]
fn reflexive_roundtrip_in_tag_file() {
    let reflexive = Reflexive::<u16> { items: vec![0x0102, 0x0304, 0x0506] };
    let mut file = vec![0u8; 12];
    reflexive.write_to_tag_file(&mut file, 0, 12).unwrap();
    assert_eq!(file, vec![0, 0, 0, 3, 0, 0, 0, 0, 0, 0, 0, 0, 1, 2, 3, 4, 5, 6]);
    let mut cursor = 12;
    let read = Reflexive::<u16>::read_from_tag_file(&file, 0, 12, &mut cursor).unwrap();
    assert_eq!(read, reflexive);
    assert_eq!(cursor, file.len());
}

#[test]
fn display_strings() {
    assert_eq!(ID::null().to_string(), "(id=null, salt=null)");
    let id = ID::new(Some(12), 0x6174);
    assert_eq!(id.to_string(), format!("(id={}, salt={})", id.index().unwrap(), id.salt().unwrap()));
    assert_eq!(id.to_string(), "(id=12, salt=24948)");
    assert_eq!(Address { address: 0x1234ABC }.to_string(), "0x01234ABC");

    let bytes = ColorARGBIntBytes { alpha: 255, red: 0, green: 12, blue: 128 };
    assert_eq!(bytes.to_string(), "{ alpha = 255, red = 0, green = 12, blue = 128 }");
    assert_eq!(ColorARGBInt::from(bytes).to_string(), bytes.to_string());

    let path = TagPath::new("weapons\\pistol\\pistol", TagGroup::Weapon).unwrap();
    assert_eq!(path.to_string(), path.to_native_path());
    assert_eq!(TagReference::from(path.clone()).to_string(), path.to_native_path());
    assert_eq!(TagReference::Null(TagGroup::Bitmap).to_string(), "(null bitmap)");
}

#[test]
fn conversions() {
    assert_eq!(Address::from(0x40440000u32), Address { address: 0x40440000 });
    assert_eq!(u32::from(Address { address: 7 }), 7);
    assert_eq!(usize::from(Address { address: 7 }), 7);
    assert_eq!(u32::from(ID::null()), 0xFFFFFFFF);
    assert_eq!(TagGroup::try_from(0x6269746Du32), Ok(TagGroup::Bitmap));
    assert!(matches!(TagGroup::try_from(0x12345678u32), Err(Error::InvalidFourCC)));
    let path = TagPath::new("a\\b", TagGroup::Scenario).unwrap();
    assert_eq!(TagReference::from(path.clone()), TagReference::SetTo(path));
}

#[test]
fn ordering_by_name() {
    let mut groups = vec![TagGroup::Wind, TagGroup::_Unset, TagGroup::Bitmap, TagGroup::ActorVariant, TagGroup::Actor];
    groups.sort();
    assert_eq!(groups, vec![TagGroup::_Unset, TagGroup::Actor, TagGroup::ActorVariant, TagGroup::Bitmap, TagGroup::Wind]);
    let mut names: Vec<&str> = groups.iter().map(|g| g.as_str()).collect();
    names.sort();
    assert_eq!(names, groups.iter().map(|g| g.as_str()).collect::<Vec<_>>());

    let a = TagPath::new("a\\b", TagGroup::Weapon).unwrap();
    let b = TagPath::new("a\\b", TagGroup::Bitmap).unwrap();
    let c = TagPath::new("a\\c", TagGroup::Actor).unwrap();
    let mut paths = vec![c.clone(), a.clone(), b.clone()];
    paths.sort();
    assert_eq!(paths, vec![b, a, c]);
}

#[test]
fn group_names_look_up_their_groups() {
    assert!(matches!(TagGroup::from_str("weapons"), Err(Error::NoSuchTagGroup)));
    assert_eq!(Error::NoSuchTagGroup.as_str(), "no such tag group");
    for i in 0..ringhopper::primitive::group::TAG_GROUP_COUNT {
        let group = ringhopper::primitive::group::group_at(i);
        if group == TagGroup::_Unset {
            assert!(matches!(TagGroup::from_str(group.as_str()), Err(Error::NoSuchTagGroup)));
        } else {
            assert_eq!(TagGroup::from_str(group.as_str()), Ok(group));
        }
    }
    assert!(TagPath::from_path("x.<unset>").is_err());
    assert!(TagPath::split_str_path("x.<unset>").is_none());
}

#[test]
fn tag_paths_round_trip() {
    let p = TagPath::new("Weapons//Pistol\\PISTOL", TagGroup::Weapon).unwrap();
    assert_eq!(p.path(), "weapons\\pistol\\pistol");
    assert_eq!(TagPath::new(p.path(), TagGroup::Weapon).unwrap(), p);
    assert_eq!(TagPath::from_path(&p.to_internal_path()).unwrap(), p);
    let q = TagPath::new("levels\\a10\\a10", TagGroup::ScenarioStructureBSP).unwrap();
    assert_eq!(TagPath::from_path(&q.to_internal_path()).unwrap(), q);
}
