//! Reading images from PNG and TIFF files, and writing them to TIFF files.
//!
//! The `png` and `tiff` crates decode and encode the files; this module turns their samples into pixels and back.

use vstd::prelude::*;
use vstd::string::StringExecFns;
use std::io::Cursor;
use png::ColorType as PngColor;
use tiff::ColorType as Tiff;
use tiff::TiffError;
use tiff::decoder::{Decoder as TiffDecoder, DecodingResult};
use crate::data::bitmap::Image;
use crate::error::{Error, RinghopperResult};
use crate::primitive::color::{ColorARGBInt, ColorARGBIntBytes, spec_pack_argb, spec_unpack_argb};

verus! {

/// How the samples of a decoded image make up its pixels.
#[derive(Copy, Clone, PartialEq, Eq, Structural, Debug)]
pub enum SampleLayout {
    /// One grayscale sample.
    Gray,

    /// One grayscale sample, then one alpha sample.
    GrayAlpha,

    /// Red, green and blue samples.
    Rgb,

    /// Red, green, blue and alpha samples.
    Rgba,

    /// Any other layout, such as a palette.
    Other,
}

/// An image as a decoder gives it.
pub struct DecodedImage {
    /// The samples, row by row; one byte each where the bit depth is 8.
    pub samples: Vec<u8>,

    /// How the samples make up pixels.
    pub layout: SampleLayout,

    /// Bits per sample.
    pub bit_depth: u8,

    pub width: usize,
    pub height: usize,
}

/// What the `png` crate decodes from a PNG file: the samples, their layout, the bit depth, the width and the height,
/// or the message of its error.
pub uninterp spec fn spec_png_decode(data: Seq<u8>) -> Result<(Seq<u8>, SampleLayout, u8, usize, usize), Seq<char>>;

/// What the `tiff` crate decodes from a TIFF file: the samples where they are bytes, their layout, the bit depth, the
/// width and the height, or the message of its error.
pub uninterp spec fn spec_tiff_decode(data: Seq<u8>) -> Result<
    (Option<Seq<u8>>, SampleLayout, u8, usize, usize),
    Seq<char>,
>;

/// What the `tiff` crate encodes as an RGBA image with 8-bit samples, in strips of two rows, with the alpha marked as
/// unassociated; `None` where it fails.
pub uninterp spec fn spec_tiff_encode(width: u32, height: u32, rgba: Seq<u8>) -> Option<Seq<u8>>;

/// Decode a PNG file with `png::Decoder`, reading the first frame.
#[verifier::external_body]
fn decode_png(data: &[u8]) -> (r: Result<DecodedImage, String>)
    ensures
        match r {
            Ok(d) => spec_png_decode(data@) == Ok::<_, Seq<char>>((d.samples@, d.layout, d.bit_depth, d.width, d.height)),
            Err(m) => spec_png_decode(data@) == Err::<(Seq<u8>, SampleLayout, u8, usize, usize), Seq<char>>(m@),
        },
{
    let err = |e: png::DecodingError| e.to_string();
    let mut reader = png::Decoder::new(Cursor::new(data)).read_info().map_err(err)?;
    let mut samples = vec![0; reader.output_buffer_size().ok_or(png::DecodingError::LimitsExceeded).map_err(err)?];
    let info = reader.next_frame(&mut samples).map_err(err)?;
    let layout = match info.color_type {
        PngColor::Grayscale => SampleLayout::Gray,
        PngColor::GrayscaleAlpha => SampleLayout::GrayAlpha,
        PngColor::Rgb => SampleLayout::Rgb,
        PngColor::Rgba => SampleLayout::Rgba,
        PngColor::Indexed => SampleLayout::Other,
    };
    Ok(DecodedImage { samples, layout, bit_depth: info.bit_depth as u8, width: info.width as usize, height: info.height as usize })
}

/// Decode a TIFF file with `tiff::decoder::Decoder`: its dimensions, its image and its color type.
#[verifier::external_body]
fn decode_tiff(data: &[u8]) -> (r: Result<(Option<Vec<u8>>, SampleLayout, u8, usize, usize), String>)
    ensures
        match r {
            Ok((s, l, b, w, h)) => spec_tiff_decode(data@) == Ok::<_, Seq<char>>((
                match s {
                    Some(v) => Some(v@),
                    None => None,
                },
                l,
                b,
                w,
                h,
            )),
            Err(m) => spec_tiff_decode(data@) == Err::<(Option<Seq<u8>>, SampleLayout, u8, usize, usize), Seq<char>>(m@),
        },
{
    let err = |e: TiffError| e.to_string();
    let mut decoder = TiffDecoder::new(Cursor::new(data)).map_err(err)?;
    let (w, h) = decoder.dimensions().map_err(err)?;
    let samples = if let DecodingResult::U8(p) = decoder.read_image().map_err(err)? { Some(p) } else { None };
    let (layout, bits) = match decoder.colortype().map_err(err)? {
        Tiff::Gray(n) => (SampleLayout::Gray, n),
        Tiff::GrayA(n) => (SampleLayout::GrayAlpha, n),
        Tiff::RGB(n) => (SampleLayout::Rgb, n),
        Tiff::RGBA(n) => (SampleLayout::Rgba, n),
        _ => (SampleLayout::Other, 0),
    };
    Ok((samples, layout, bits, w as usize, h as usize))
}

/// Encode an RGBA image with 8-bit samples with `tiff::encoder::TiffEncoder`, in strips of two rows, with the
/// alpha marked as unassociated (the `ExtraSamples` tag set to 2); `None` where the encoder fails.
///
/// `rgba` holds at least four samples per pixel: the encoder slices it by strips of that size and panics on less.
#[verifier::external_body]
fn encode_tiff_rgba(width: u32, height: u32, rgba: &[u8]) -> (r: Option<Vec<u8>>)
    requires
        4 * ((width as int) * (height as int)) <= rgba@.len(),
    ensures
        match spec_tiff_encode(width, height, rgba@) {
            Some(b) => r matches Some(v) && v@ == b,
            None => r is None,
        },
{
    let mut data = Vec::new();
    let encode = |data: &mut Vec<u8>| -> tiff::TiffResult<()> {
        let mut encoder = tiff::encoder::TiffEncoder::new(Cursor::new(data))?;
        let mut image = encoder.new_image::<tiff::encoder::colortype::RGBA8>(width, height)?;
        image.encoder().write_tag(tiff::tags::Tag::ExtraSamples, &[2u16][..])?;
        image.rows_per_strip(2)?;
        image.write_data(rgba)
    };
    encode(&mut data).ok().map(|_| data)
}

/// The number of samples of one pixel.
pub open spec fn spec_samples_per_pixel(layout: SampleLayout) -> nat {
    match layout {
        SampleLayout::Gray => 1,
        SampleLayout::GrayAlpha => 2,
        SampleLayout::Rgb => 3,
        SampleLayout::Rgba => 4,
        SampleLayout::Other => 0,
    }
}

/// The packed color of the pixel whose samples start `p`: gray is opaque, and the alpha comes after the gray or the
/// red, green and blue.
pub open spec fn spec_pixel_from_samples(layout: SampleLayout, p: Seq<u8>) -> u32 {
    match layout {
        SampleLayout::Gray => spec_pack_argb(255, p[0], p[0], p[0]),
        SampleLayout::GrayAlpha => spec_pack_argb(p[1], p[0], p[0], p[0]),
        SampleLayout::Rgb => spec_pack_argb(255, p[0], p[1], p[2]),
        _ => spec_pack_argb(p[3], p[0], p[1], p[2]),
    }
}

/// The packed colors of the pixels that the samples make up.
pub open spec fn spec_pixels_from_samples(layout: SampleLayout, samples: Seq<u8>) -> Seq<u32> {
    let n = spec_samples_per_pixel(layout) as int;
    Seq::new(
        (samples.len() as int / n) as nat,
        |k: int| spec_pixel_from_samples(layout, samples.subrange(k * n, k * n + n)),
    )
}

/// The number of samples of one pixel.
fn samples_per_pixel(layout: SampleLayout) -> (r: usize)
    ensures
        r == spec_samples_per_pixel(layout),
{
    match layout {
        SampleLayout::Gray => 1,
        SampleLayout::GrayAlpha => 2,
        SampleLayout::Rgb => 3,
        SampleLayout::Rgba => 4,
        SampleLayout::Other => 0,
    }
}

/// Convert samples into pixels.
pub fn pixels_from_samples(samples: &[u8], layout: SampleLayout) -> (r: Vec<ColorARGBInt>)
    requires
        layout != SampleLayout::Other,
        samples@.len() % spec_samples_per_pixel(layout) == 0,
    ensures
        r@.map_values(|c: ColorARGBInt| c.color) == spec_pixels_from_samples(layout, samples@),
{
    let n = samples_per_pixel(layout);
    let ghost expected = spec_pixels_from_samples(layout, samples@);
    let mut pixels: Vec<ColorARGBInt> = Vec::new();
    let mut at: usize = 0;
    let mut k: usize = 0;
    proof {
        assert(n > 0);
        vstd::arithmetic::div_mod::lemma_fundamental_div_mod(samples@.len() as int, n as int);
    }
    while at < samples.len()
        invariant
            n == spec_samples_per_pixel(layout),
            1 <= n <= 4,
            layout != SampleLayout::Other,
            samples@.len() % (n as nat) == 0,
            samples@.len() == (samples@.len() as int / n as int) * n,
            expected == spec_pixels_from_samples(layout, samples@),
            at == k * n,
            at <= samples@.len(),
            pixels@.len() == k,
            forall|j: int| 0 <= j < k ==> (#[trigger] pixels@[j]).color == expected[j],
        decreases samples@.len() - at,
    {
        proof {
            assert(at + n <= samples@.len()) by (nonlinear_arith)
                requires
                    at == k * n,
                    at < samples@.len(),
                    samples@.len() == (samples@.len() as int / n as int) * n,
                    n >= 1,
            ;
            assert(k < samples@.len() as int / n as int) by (nonlinear_arith)
                requires
                    at == k * n,
                    at < samples@.len(),
                    samples@.len() == (samples@.len() as int / n as int) * n,
                    n >= 1,
            ;
        }
        let bytes = match layout {
            SampleLayout::Gray => ColorARGBIntBytes { alpha: 255, red: samples[at], green: samples[at], blue: samples[at] },
            SampleLayout::GrayAlpha => ColorARGBIntBytes {
                alpha: samples[at + 1],
                red: samples[at],
                green: samples[at],
                blue: samples[at],
            },
            SampleLayout::Rgb => ColorARGBIntBytes {
                alpha: 255,
                red: samples[at],
                green: samples[at + 1],
                blue: samples[at + 2],
            },
            _ => ColorARGBIntBytes { alpha: samples[at + 3], red: samples[at], green: samples[at + 1], blue: samples[at + 2] },
        };
        let pixel = ColorARGBInt::from(bytes);
        proof {
            let p = samples@.subrange(k * n, k * n + n);
            assert(pixel.color == spec_pixel_from_samples(layout, p));
        }
        pixels.push(pixel);
        at = at + n;
        k = k + 1;
    }
    proof {
        assert(k == samples@.len() as int / n as int) by (nonlinear_arith)
            requires
                at == k * n,
                at >= samples@.len(),
                at <= samples@.len(),
                samples@.len() == (samples@.len() as int / n as int) * n,
                n >= 1,
        ;
        assert(pixels@.map_values(|c: ColorARGBInt| c.color) =~= expected);
    }
    pixels
}

/// The image, as its width, height and packed colors, that decoded samples make, or the error message: `format`
/// names the file format in the messages.
pub open spec fn spec_image_from_decoded(
    format: Seq<char>,
    samples: Seq<u8>,
    layout: SampleLayout,
    width: usize,
    height: usize,
) -> Result<(usize, usize, Seq<u32>), Seq<char>> {
    if samples.len() % spec_samples_per_pixel(layout) != 0 {
        Err(format + " read error: the samples do not make whole pixels"@)
    } else {
        Ok((width, height, spec_pixels_from_samples(layout, samples)))
    }
}

/// `r` is the image or the [`Error::Other`] that `expected` describes.
pub open spec fn spec_image_result(r: RinghopperResult<Image>, expected: Result<(usize, usize, Seq<u32>), Seq<char>>) -> bool {
    match expected {
        Ok((w, h, pixels)) => r matches Ok(image) && image.width == w && image.height == h && image.data@.map_values(
            |c: ColorARGBInt| c.color,
        ) == pixels,
        Err(m) => r matches Err(Error::Other(s)) && s@ == m,
    }
}

/// A packed color is its alpha, red, green and blue bytes, most significant first.
proof fn lemma_pack_argb_value(a: u8, r: u8, g: u8, b: u8)
    ensures
        spec_pack_argb(a, r, g, b) as int == a * 0x1000000 + r * 0x10000 + g * 0x100 + b,
{
    assert(spec_pack_argb(a, r, g, b) == (a as u32) * 0x1000000u32 + (r as u32) * 0x10000u32 + (g as u32) * 0x100u32
        + (b as u32)) by (bit_vector);
}

/// Law: decoded samples make whole pixels of one sample for gray, two for gray with alpha, three for RGB and four for
/// RGBA; the image holds one pixel per group of samples, in order, where pixel `k` is the color whose alpha, red,
/// green and blue are taken from its samples (opaque where there is no alpha sample); samples that do not make whole
/// pixels are refused.
pub proof fn law_decoded_pixels(format: Seq<char>, s: Seq<u8>, layout: SampleLayout, width: usize, height: usize)
    requires
        layout != SampleLayout::Other,
    ensures
        ({
            let n: int = match layout {
                SampleLayout::Gray => 1,
                SampleLayout::GrayAlpha => 2,
                SampleLayout::Rgb => 3,
                _ => 4,
            };
            &&& spec_image_from_decoded(format, s, layout, width, height) is Ok <==> (s.len() as int) % n == 0
            &&& spec_image_from_decoded(format, s, layout, width, height) matches Ok((w, h, px)) ==> {
                &&& w == width && h == height
                &&& px.len() == (s.len() as int) / n
                &&& forall|k: int| 0 <= k < px.len() ==> #[trigger] px[k] as int == match layout {
                    SampleLayout::Gray => 0xFF000000 + s[k] * 0x10000 + s[k] * 0x100 + s[k],
                    SampleLayout::GrayAlpha => s[2 * k + 1] * 0x1000000 + s[2 * k] * 0x10000 + s[2 * k] * 0x100 + s[2 * k],
                    SampleLayout::Rgb => 0xFF000000 + s[3 * k] * 0x10000 + s[3 * k + 1] * 0x100 + s[3 * k + 2],
                    _ => s[4 * k + 3] * 0x1000000 + s[4 * k] * 0x10000 + s[4 * k + 1] * 0x100 + s[4 * k + 2],
                }
            }
        }),
{
    if let Ok((w, h, px)) = spec_image_from_decoded(format, s, layout, width, height) {
        let n = spec_samples_per_pixel(layout) as int;
        assert forall|k: int| 0 <= k < px.len() implies #[trigger] px[k] as int == match layout {
            SampleLayout::Gray => 0xFF000000 + s[k] * 0x10000 + s[k] * 0x100 + s[k],
            SampleLayout::GrayAlpha => s[2 * k + 1] * 0x1000000 + s[2 * k] * 0x10000 + s[2 * k] * 0x100 + s[2 * k],
            SampleLayout::Rgb => 0xFF000000 + s[3 * k] * 0x10000 + s[3 * k + 1] * 0x100 + s[3 * k + 2],
            _ => s[4 * k + 3] * 0x1000000 + s[4 * k] * 0x10000 + s[4 * k + 1] * 0x100 + s[4 * k + 2],
        } by {
            assert(k * n + n <= (s.len() as int / n) * n) by (nonlinear_arith)
                requires
                    0 <= k < s.len() as int / n,
                    n > 0,
            ;
            assert((s.len() as int / n) * n <= s.len()) by (nonlinear_arith)
                requires
                    n > 0,
                    s.len() >= 0,
            ;
            let p = s.subrange(k * n, k * n + n);
            assert(px[k] == spec_pixel_from_samples(layout, p));
            match layout {
                SampleLayout::Gray => {
                    assert(p[0] == s[k]);
                    lemma_pack_argb_value(255, p[0], p[0], p[0]);
                },
                SampleLayout::GrayAlpha => {
                    assert(p[0] == s[2 * k] && p[1] == s[2 * k + 1]);
                    lemma_pack_argb_value(p[1], p[0], p[0], p[0]);
                },
                SampleLayout::Rgb => {
                    assert(p[0] == s[3 * k] && p[1] == s[3 * k + 1] && p[2] == s[3 * k + 2]);
                    lemma_pack_argb_value(255, p[0], p[1], p[2]);
                },
                _ => {
                    assert(p[0] == s[4 * k] && p[1] == s[4 * k + 1] && p[2] == s[4 * k + 2] && p[3] == s[4 * k + 3]);
                    lemma_pack_argb_value(p[3], p[0], p[1], p[2]);
                },
            }
        }
    }
}

/// Reading a PNG file: the image, or the error message.
///
/// Only 8-bit grayscale, grayscale with alpha, RGB and RGBA images are read.
pub open spec fn spec_read_png(data: Seq<u8>) -> Result<(usize, usize, Seq<u32>), Seq<char>> {
    match spec_png_decode(data) {
        Err(m) => Err("png read error: "@ + m),
        Ok((samples, layout, bits, width, height)) => if bits != 8 {
            Err("only 8-bit color supported for png"@)
        } else if layout == SampleLayout::Other {
            Err("only RGB/monochrome supported for png"@)
        } else {
            spec_image_from_decoded("png"@, samples, layout, width, height)
        },
    }
}

/// Reading a TIFF file: the image, or the error message.
///
/// Only 8-bit grayscale, grayscale with alpha, RGB and RGBA images are read.
pub open spec fn spec_read_tiff(data: Seq<u8>) -> Result<(usize, usize, Seq<u32>), Seq<char>> {
    match spec_tiff_decode(data) {
        Err(m) => Err("tiff read error: "@ + m),
        Ok((samples, layout, bits, width, height)) => match samples {
            None => Err("only u8 supported for tiff"@),
            Some(samples) => if layout == SampleLayout::Other {
                Err("only RGB/monochrome supported for tiff"@)
            } else if bits != 8 {
                Err("only 8-bit color supported for tiff"@)
            } else {
                spec_image_from_decoded("tiff"@, samples, layout, width, height)
            },
        },
    }
}

/// The message `prefix` followed by `m`.
fn prefixed(prefix: &str, m: String) -> (r: String)
    ensures
        r@ == prefix@ + m@,
{
    let mut s = prefix.to_owned();
    s.append(m.as_str());
    s
}

/// Build an image from decoded samples; `format` names the decoder in the messages.
///
/// Returns [`Error::Other`] if the samples do not make whole pixels.
pub fn image_from_decoded(format: &str, samples: Vec<u8>, layout: SampleLayout, width: usize, height: usize) -> (r: RinghopperResult<
    Image,
>)
    requires
        layout != SampleLayout::Other,
    ensures
        spec_image_result(r, spec_image_from_decoded(format@, samples@, layout, width, height)),
{
    if samples.len() % samples_per_pixel(layout) != 0 {
        return Err(Error::Other(prefixed(format, " read error: the samples do not make whole pixels".to_owned())));
    }
    let data = pixels_from_samples(samples.as_slice(), layout);
    Ok(Image { width, height, data })
}

impl Image {
    /// Parse a PNG image file into an image.
    ///
    /// Returns `Err` if an error occurred.
    pub fn from_png(png: &[u8]) -> (r: RinghopperResult<Image>)
        ensures
            spec_image_result(r, spec_read_png(png@)),
    {
        let decoded = match decode_png(png) {
            Ok(d) => d,
            Err(m) => return Err(Error::Other(prefixed("png read error: ", m))),
        };
        if decoded.bit_depth != 8 {
            return Err(Error::Other("only 8-bit color supported for png".to_owned()));
        }
        if decoded.layout == SampleLayout::Other {
            return Err(Error::Other("only RGB/monochrome supported for png".to_owned()));
        }
        image_from_decoded("png", decoded.samples, decoded.layout, decoded.width, decoded.height)
    }

    /// Parse a TIFF image file into an image.
    ///
    /// Returns `Err` if an error occurred.
    pub fn from_tiff(tiff: &[u8]) -> (r: RinghopperResult<Image>)
        ensures
            spec_image_result(r, spec_read_tiff(tiff@)),
    {
        let (samples, layout, bits, width, height) = match decode_tiff(tiff) {
            Ok(d) => d,
            Err(m) => return Err(Error::Other(prefixed("tiff read error: ", m))),
        };
        let samples = match samples {
            Some(s) => s,
            None => return Err(Error::Other("only u8 supported for tiff".to_owned())),
        };
        if layout == SampleLayout::Other {
            return Err(Error::Other("only RGB/monochrome supported for tiff".to_owned()));
        }
        if bits != 8 {
            return Err(Error::Other("only 8-bit color supported for tiff".to_owned()));
        }
        image_from_decoded("tiff", samples, layout, width, height)
    }

    /// Convert the image into a TIFF file: RGBA with 8-bit samples.
    ///
    /// Returns `None` where the encoder fails, as where the file would be too large for TIFF.
    pub fn to_tiff(&self) -> (r: Option<Vec<u8>>)
        requires
            0 < self.width <= u32::MAX,
            0 < self.height <= u32::MAX,
            self.data@.len() >= self.width * self.height,
            self.data@.len() * 4 <= usize::MAX,
        ensures
            match spec_tiff_encode(self.width as u32, self.height as u32, spec_rgba_samples(self.data@)) {
                Some(b) => r matches Some(v) && v@ == b,
                None => r is None,
            },
    {
        // Re-encode
        let mut pixels_r8g8b8a8: Vec<u8> = Vec::new();
        let mut k: usize = 0;
        while k < self.data.len()
            invariant
                k <= self.data@.len(),
                self.data@.len() * 4 <= usize::MAX,
                pixels_r8g8b8a8@ == spec_rgba_samples(self.data@.take(k as int)),
                pixels_r8g8b8a8@.len() == 4 * k,
            decreases self.data@.len() - k,
        {
            let color = ColorARGBIntBytes::from(self.data[k]);
            pixels_r8g8b8a8.push(color.red);
            pixels_r8g8b8a8.push(color.green);
            pixels_r8g8b8a8.push(color.blue);
            pixels_r8g8b8a8.push(color.alpha);
            proof {
                assert(self.data@.take(k + 1).drop_last() =~= self.data@.take(k as int));
            }
            k = k + 1;
        }
        proof {
            assert(self.data@.take(k as int) =~= self.data@);
            assert(4 * ((self.width as u32 as int) * (self.height as u32 as int)) <= pixels_r8g8b8a8@.len());
        }
        encode_tiff_rgba(self.width as u32, self.height as u32, pixels_r8g8b8a8.as_slice())
    }
}

/// The samples of pixels as RGBA: red, green, blue and alpha, one byte each.
pub open spec fn spec_rgba_samples(pixels: Seq<ColorARGBInt>) -> Seq<u8>
    decreases pixels.len(),
{
    if pixels.len() == 0 {
        Seq::empty()
    } else {
        let c = spec_unpack_argb(pixels.last().color);
        spec_rgba_samples(pixels.drop_last()) + seq![c.red, c.green, c.blue, c.alpha]
    }
}

} // verus!
