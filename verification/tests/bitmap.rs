use ringhopper::data::bitmap::parse::{pixels_from_samples, SampleLayout};
use ringhopper::data::bitmap::plate::{
    make_color_plate, padding_file_readable, parse_padding_color, LooseColorPlateIterator, LoosePlateStep,
};
use ringhopper::data::bitmap::{Image, ImageFormat};
use ringhopper::dynamic::{next_matcher_step, subscript_ranges, MatcherStep};
use ringhopper::error::Error;
use ringhopper::primitive::color::{ColorARGBInt, ColorARGBIntBytes};

fn color(c: u32) -> ColorARGBInt {
    ColorARGBInt { color: c }
}

#[test]
fn color_conversions() {
    let bytes = ColorARGBIntBytes { alpha: 0x12, red: 0x34, green: 0x56, blue: 0x78 };
    let packed: ColorARGBInt = bytes.into();
    assert_eq!(packed.color, 0x12345678);
    let back: ColorARGBIntBytes = packed.into();
    assert_eq!(back, bytes);
    let raw: u32 = ColorARGBIntBytes::from(0xAABBCCDDu32).into();
    assert_eq!(raw, 0xAABBCCDD);
}

#[test]
fn color_plate_layout() {
    let a = Image { width: 2, height: 1, data: vec![color(0xFF111111), color(0xFF222222)] };
    let b = Image { width: 1, height: 2, data: vec![color(0xFF333333), color(0xFF444444)] };
    let plate = make_color_plate(Some(color(0xFF00FF00)), &vec![vec![a], vec![b]]).unwrap();
    assert_eq!(plate.width, 4);
    assert_eq!(plate.height, 10);
    let (bg, dv, pd) = (0xFF0000FF, 0xFFFF00FF, 0xFF00FF00);
    let expected: Vec<u32> = vec![
        bg, dv, pd, bg, // header
        dv, dv, dv, dv, // divider of the first sequence
        bg, bg, bg, bg,
        bg, 0xFF111111, 0xFF222222, bg,
        bg, bg, bg, bg,
        dv, dv, dv, dv, // divider of the second sequence
        bg, bg, bg, bg,
        bg, 0xFF333333, bg, bg,
        bg, 0xFF444444, bg, bg,
        bg, bg, bg, bg,
    ];
    assert_eq!(plate.data.iter().map(|c| c.color).collect::<Vec<u32>>(), expected);
}

#[test]
fn color_plate_avoids_used_colors() {
    // The image uses blue (the default background) and magenta (the default divider), ignoring alpha
    let a = Image { width: 2, height: 1, data: vec![color(0x000000FF), color(0x00FF00FF)] };
    let plate = make_color_plate(None, &vec![vec![a]]).unwrap();
    assert_eq!(plate.width, 4);
    assert_eq!(plate.height, 5);
    // white is the first color from white to black, black the first from black to white
    assert_eq!(plate.data[0].color, 0xFFFFFFFF);
    assert_eq!(plate.data[1].color, 0xFF000000);
    assert_eq!(plate.data[2].color, 0xFFFFFFFF);
    assert_eq!(plate.data[13].color, 0x000000FF);
}

#[test]
fn color_plate_empty_and_wide() {
    let plate = make_color_plate(None, &vec![]).unwrap();
    assert_eq!((plate.width, plate.height), (4, 1));
    let wide = Image { width: usize::MAX, height: 0, data: vec![] };
    assert!(matches!(make_color_plate(None, &vec![vec![wide]]), Err(Error::SizeLimitExceeded)));
}

#[test]
fn padding_colors() {
    assert_eq!(parse_padding_color("p", b"#FF8000").unwrap().color, 0xFFFF8000);
    assert_eq!(parse_padding_color("p", b" #f80\n").unwrap().color, 0xFFFF8800);
    assert_eq!(parse_padding_color("p", "\u{3000}#0a0B0c\t".as_bytes()).unwrap().color, 0xFF0A0B0C);
}

fn padding_error(data: &[u8]) -> String {
    match parse_padding_color("\"padding.txt\"", data) {
        Err(Error::Other(m)) => m,
        _ => panic!("expected an error"),
    }
}

#[test]
fn padding_errors() {
    assert_eq!(padding_error(&[0xFF]), "\"padding.txt\" is not valid UTF-8");
    assert_eq!(padding_error(b"  \n"), "\"padding.txt\" is empty");
    assert_eq!(padding_error(b"FF8000"), "\"padding.txt\" is not in the format #RRGGBB or #RGB");
    assert_eq!(padding_error(b"#FF80"), "\"padding.txt\" is not in the format #RRGGBB or #RGB");
    assert_eq!(padding_error(b"#GG0000"), "\"padding.txt\" contains non-hexadecimal characters");
}

#[test]
fn padding_readability() {
    assert!(padding_file_readable(b"#123"));
    assert!(padding_file_readable(&[0xFF]));
    assert!(!padding_file_readable("\u{e9}123".as_bytes()));
    assert!(!padding_file_readable("#\u{e9}1".as_bytes()));
    assert!(padding_file_readable("#\u{e9}12".as_bytes()));
}

#[test]
fn loose_plate_iteration() {
    assert!(LooseColorPlateIterator::interate_on(false).is_none());
    let mut it = LooseColorPlateIterator::interate_on(true).unwrap();
    // s0_0 and s0_1 exist, s0_2 does not; s1_0 exists, s1_1 does not; s2_0 does not
    assert_eq!(it.next_probe(), Some((0, 0)));
    assert_eq!(it.probed(true), LoosePlateStep::Found(0, 0));
    assert_eq!(it.next_probe(), Some((0, 1)));
    assert_eq!(it.probed(true), LoosePlateStep::Found(0, 1));
    assert_eq!(it.next_probe(), Some((0, 2)));
    assert_eq!(it.probed(false), LoosePlateStep::Probe(1, 0));
    assert_eq!(it.probed(true), LoosePlateStep::Found(1, 0));
    assert_eq!(it.next_probe(), Some((1, 1)));
    assert_eq!(it.probed(false), LoosePlateStep::Probe(2, 0));
    assert_eq!(it.probed(false), LoosePlateStep::Finished);
    assert_eq!(it.next_probe(), None);
    assert_eq!(it.probed(true), LoosePlateStep::Finished);
}

#[test]
fn samples_to_pixels() {
    let gray = pixels_from_samples(&[0x10, 0x20], SampleLayout::Gray);
    assert_eq!(gray.iter().map(|c| c.color).collect::<Vec<u32>>(), vec![0xFF101010, 0xFF202020]);
    let gray_alpha = pixels_from_samples(&[0x10, 0x80], SampleLayout::GrayAlpha);
    assert_eq!(gray_alpha[0].color, 0x80101010);
    let rgb = pixels_from_samples(&[1, 2, 3], SampleLayout::Rgb);
    assert_eq!(rgb[0].color, 0xFF010203);
    let rgba = pixels_from_samples(&[1, 2, 3, 4], SampleLayout::Rgba);
    assert_eq!(rgba[0].color, 0x04010203);
}

fn encode_png(width: u32, height: u32, color_type: png::ColorType, depth: png::BitDepth, data: &[u8]) -> Vec<u8> {
    let mut out = Vec::new();
    {
        let mut encoder = png::Encoder::new(&mut out, width, height);
        encoder.set_color(color_type);
        encoder.set_depth(depth);
        let mut writer = encoder.write_header().unwrap();
        writer.write_image_data(data).unwrap();
    }
    out
}

#[test]
fn png_images() {
    let file = encode_png(2, 1, png::ColorType::Rgba, png::BitDepth::Eight, &[1, 2, 3, 4, 5, 6, 7, 8]);
    let image = Image::from_png(&file).unwrap();
    assert_eq!((image.width, image.height), (2, 1));
    assert_eq!(image.data.iter().map(|c| c.color).collect::<Vec<u32>>(), vec![0x04010203, 0x08050607]);

    let file = encode_png(1, 1, png::ColorType::GrayscaleAlpha, png::BitDepth::Eight, &[0x30, 0x40]);
    assert_eq!(Image::from_png(&file).unwrap().data[0].color, 0x40303030);

    let file = encode_png(1, 1, png::ColorType::Rgb, png::BitDepth::Sixteen, &[0, 1, 0, 2, 0, 3]);
    match Image::from_png(&file) {
        Err(Error::Other(m)) => assert_eq!(m, "only 8-bit color supported for png"),
        _ => panic!("expected an error"),
    }

    match Image::from_png(b"not a png") {
        Err(Error::Other(m)) => assert!(m.starts_with("png read error: ")),
        _ => panic!("expected an error"),
    }
}

#[test]
fn tiff_roundtrip() {
    let image = Image {
        width: 2,
        height: 3,
        data: vec![color(0x11223344), color(0x55667788), color(0x99AABBCC), color(0xDDEEFF00), color(0xFF000000), color(0x01020304)],
    };
    let file = image.to_tiff().unwrap();
    let read = Image::from_tiff(&file).unwrap();
    assert_eq!((read.width, read.height), (2, 3));
    assert_eq!(read.data, image.data);

    match Image::from_tiff(b"not a tiff") {
        Err(Error::Other(m)) => assert!(m.starts_with("tiff read error: ")),
        _ => panic!("expected an error"),
    }
}

#[test]
fn image_extensions() {
    assert_eq!(ImageFormat::from_extension("PNG"), Some(ImageFormat::Png));
    assert_eq!(ImageFormat::from_extension("Tif"), Some(ImageFormat::Tiff));
    assert_eq!(ImageFormat::from_extension("tiff"), Some(ImageFormat::Tiff));
    assert_eq!(ImageFormat::from_extension("jXl"), Some(ImageFormat::Jxl));
    assert_eq!(ImageFormat::from_extension("bmp"), None);
    assert_eq!(ImageFormat::from_extension("pngg"), None);
}

#[test]
fn matcher_steps() {
    assert_eq!(next_matcher_step(""), Ok(MatcherStep::Here));
    assert_eq!(next_matcher_step("strings[0-2].string"), Ok(MatcherStep::Field { end: 7, next: 7 }));
    assert_eq!(next_matcher_step("a.b"), Ok(MatcherStep::Field { end: 1, next: 2 }));
    assert_eq!(next_matcher_step("[0-2].string"), Ok(MatcherStep::Subscript { close: 4, next: 6 }));
    assert_eq!(next_matcher_step("[1]x"), Ok(MatcherStep::Subscript { close: 2, next: 3 }));
    assert_eq!(next_matcher_step("[0"), Ok(MatcherStep::UnclosedSubscript));
    assert_eq!(next_matcher_step(".x"), Err("bad matcher: cannot start a field name with '.'"));
}

#[test]
fn subscript_steps() {
    let step = next_matcher_step("[0-2,5].x").unwrap();
    assert_eq!(subscript_ranges("[0-2,5].x", step, Some(8)), Ok((vec![(0, 2), (5, 5)], 8)));
    assert_eq!(subscript_ranges("[0-2,5].x", step, None), Err("bad matcher: type is not subscriptable"));
    assert_eq!(subscript_ranges("[", MatcherStep::UnclosedSubscript, Some(3)), Err("bad matcher: expected a ] to close a ["));
    assert!(subscript_ranges("[9]", next_matcher_step("[9]").unwrap(), Some(3)).is_err());
}
