//! Images, as bitmaps are made from.

use vstd::prelude::*;
use crate::primitive::color::ColorARGBInt;
use crate::primitive::utf16::char_from_u32;
use crate::text::chars_of;

pub mod parse;
pub mod plate;

verus! {

/// Represents a collection of pixels, with a width and height.
///
/// Pixels are stored row by row, from the top left.
#[derive(Clone, Default)]
pub struct Image {
    pub width: usize,
    pub height: usize,
    pub data: Vec<ColorARGBInt>,
}

/// The file formats that images are loaded from.
#[derive(Copy, Clone, PartialEq, Eq, Structural, Debug)]
pub enum ImageFormat {
    /// JPEG XL.
    Jxl,

    /// TIFF.
    Tiff,

    /// PNG.
    Png,
}

/// The file extensions of images, in the order in which they are tried.
pub open spec fn spec_image_extensions() -> Seq<(Seq<char>, ImageFormat)> {
    seq![("jxl"@, ImageFormat::Jxl), ("tif"@, ImageFormat::Tiff), ("tiff"@, ImageFormat::Tiff), ("png"@, ImageFormat::Png)]
}

/// `c` with an ASCII uppercase letter made lowercase.
pub open spec fn spec_ascii_lower(c: char) -> char {
    if 'A' <= c <= 'Z' {
        ((c as u32) + 32) as char
    } else {
        c
    }
}

/// `a` and `b` are equal but for the case of ASCII letters.
pub open spec fn spec_eq_ignore_ascii_case(a: Seq<char>, b: Seq<char>) -> bool {
    a.len() == b.len() && forall|i: int| 0 <= i < a.len() ==> spec_ascii_lower(#[trigger] a[i]) == spec_ascii_lower(b[i])
}

/// The format of the first of the image extensions that `extension` is, ignoring ASCII case.
pub open spec fn spec_format_for_extension(extension: Seq<char>) -> Option<ImageFormat> {
    let e = spec_image_extensions();
    if exists|i: int| 0 <= i < e.len() && spec_eq_ignore_ascii_case(#[trigger] e[i].0, extension) {
        let i = choose|i: int|
            0 <= i < e.len() && spec_eq_ignore_ascii_case(#[trigger] e[i].0, extension) && forall|j: int|
                0 <= j < i ==> !spec_eq_ignore_ascii_case(#[trigger] e[j].0, extension);
        Some(e[i].1)
    } else {
        None
    }
}

/// The extensions of the image files that can be loaded, in the order in which they are tried.
pub fn image_extensions() -> (r: [&'static str; 4])
    ensures
        forall|i: int| 0 <= i < 4 ==> (#[trigger] r@[i])@ == spec_image_extensions()[i].0,
{
    proof {
        reveal_strlit("jxl");
        reveal_strlit("tif");
        reveal_strlit("tiff");
        reveal_strlit("png");
    }
    ["jxl", "tif", "tiff", "png"]
}

/// `c` with an ASCII uppercase letter made lowercase.
fn ascii_lower(c: char) -> (r: char)
    ensures
        r == spec_ascii_lower(c),
{
    if 'A' <= c && c <= 'Z' {
        char_from_u32(c as u32 + 32).unwrap()
    } else {
        c
    }
}

/// `a` and `b` are equal but for the case of ASCII letters.
fn eq_ignore_ascii_case(a: &str, b: &str) -> (r: bool)
    ensures
        r == spec_eq_ignore_ascii_case(a@, b@),
{
    let ca = chars_of(a);
    let cb = chars_of(b);
    if ca.len() != cb.len() {
        return false;
    }
    let mut i: usize = 0;
    while i < ca.len()
        invariant
            i <= ca@.len(),
            ca@ == a@,
            cb@ == b@,
            ca@.len() == cb@.len(),
            forall|j: int| 0 <= j < i ==> spec_ascii_lower(#[trigger] ca@[j]) == spec_ascii_lower(cb@[j]),
        decreases ca@.len() - i,
    {
        if ascii_lower(ca[i]) != ascii_lower(cb[i]) {
            assert(spec_ascii_lower(ca@[i as int]) != spec_ascii_lower(cb@[i as int]));
            return false;
        }
        i = i + 1;
    }
    true
}

impl ImageFormat {
    /// The format of an image file with the given extension, ignoring ASCII case, if it is one that can be loaded.
    pub fn from_extension(extension: &str) -> (r: Option<ImageFormat>)
        ensures
            r == spec_format_for_extension(extension@),
    {
        let extensions = image_extensions();
        let formats = [ImageFormat::Jxl, ImageFormat::Tiff, ImageFormat::Tiff, ImageFormat::Png];
        let ghost e = spec_image_extensions();
        let mut i: usize = 0;
        while i < 4
            invariant
                i <= 4,
                e == spec_image_extensions(),
                forall|k: int| 0 <= k < 4 ==> (#[trigger] extensions@[k])@ == e[k].0,
                forall|k: int| 0 <= k < 4 ==> #[trigger] formats@[k] == e[k].1,
                forall|j: int| 0 <= j < i ==> !spec_eq_ignore_ascii_case(#[trigger] e[j].0, extension@),
            decreases 4 - i,
        {
            if eq_ignore_ascii_case(extensions[i], extension) {
                proof {
                    let w = choose|w: int|
                        0 <= w < e.len() && spec_eq_ignore_ascii_case(#[trigger] e[w].0, extension@) && forall|j: int|
                            0 <= j < w ==> !spec_eq_ignore_ascii_case(#[trigger] e[j].0, extension@);
                    assert(spec_eq_ignore_ascii_case(e[i as int].0, extension@));
                    if w < i {
                    } else if w > i {
                        assert(!spec_eq_ignore_ascii_case(e[i as int].0, extension@));
                    }
                }
                return Some(formats[i]);
            }
            i = i + 1;
        }
        None
    }
}

} // verus!
