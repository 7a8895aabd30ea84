//! Color plates: the images of a bitmap's sequences laid out on one image, separated by colors that none of the
//! images use.
//!
//! The plate has a header row whose second pixel is the sequence divider color and whose third pixel, if any, is the
//! padding color. Each sequence then takes a band: a row of the divider color, a row of background, its images
//! side by side (each with one column of background on either side) and a row of background.

use vstd::prelude::*;
use crate::data::bitmap::Image;
use vstd::utf8::{decode_utf8, valid_utf8};
use crate::primitive::color::{ColorARGBInt, ColorARGBIntBytes, spec_pack_argb};
use crate::text::{chars_of, str_from_utf8};
use std::collections::HashSet;
use vstd::string::StringExecFns;
use crate::error::{Error, RinghopperResult};

verus! {

/// The sequences of images of a plate.
pub open spec fn spec_sequences(sequences: &Vec<Vec<Image>>) -> Seq<Seq<Image>> {
    sequences@.map_values(|v: Vec<Image>| v@)
}

/// The width that a sequence's images take side by side: each with a column of background on either side.
pub open spec fn spec_row_width(images: Seq<Image>) -> int
    decreases images.len(),
{
    if images.len() == 0 {
        0
    } else {
        spec_row_width(images.drop_last()) + images.last().width + 2
    }
}

/// The height of the tallest image of a sequence, or zero.
pub open spec fn spec_max_height(images: Seq<Image>) -> int
    decreases images.len(),
{
    if images.len() == 0 {
        0
    } else {
        let m = spec_max_height(images.drop_last());
        if images.last().height > m {
            images.last().height as int
        } else {
            m
        }
    }
}

/// The height of a sequence's band: a divider row, a background row, the images and a background row.
pub open spec fn spec_band_height(images: Seq<Image>) -> int {
    spec_max_height(images) + 3
}

/// The height of the bands of the sequences.
pub open spec fn spec_bands_height(sequences: Seq<Seq<Image>>) -> int
    decreases sequences.len(),
{
    if sequences.len() == 0 {
        0
    } else {
        spec_bands_height(sequences.drop_last()) + spec_band_height(sequences.last())
    }
}

/// The width of the plate: that of its widest sequence, and at least 4.
pub open spec fn spec_plate_width(sequences: Seq<Seq<Image>>) -> int
    decreases sequences.len(),
{
    if sequences.len() == 0 {
        4
    } else {
        let w = spec_plate_width(sequences.drop_last());
        if spec_row_width(sequences.last()) > w {
            spec_row_width(sequences.last())
        } else {
            w
        }
    }
}

/// The height of the plate: the header row and the bands.
pub open spec fn spec_plate_height(sequences: Seq<Seq<Image>>) -> int {
    1 + spec_bands_height(sequences)
}

/// The plate's dimensions can be computed in a `usize`.
pub open spec fn spec_layout_fits(sequences: Seq<Seq<Image>>) -> bool {
    &&& forall|s: int| 0 <= s < sequences.len() ==> spec_row_width(#[trigger] sequences[s]) <= usize::MAX
    &&& forall|s: int| 0 <= s < sequences.len() ==> spec_band_height(#[trigger] sequences[s]) <= usize::MAX
    &&& 2 + spec_bands_height(sequences) <= usize::MAX
}

/// The column where image `i` of a sequence starts.
pub open spec fn spec_image_x(images: Seq<Image>, i: int) -> int {
    1 + spec_row_width(images.take(i))
}

/// The row where the images of sequence `s` start.
pub open spec fn spec_band_y(sequences: Seq<Seq<Image>>, s: int) -> int {
    3 + spec_bands_height(sequences.take(s))
}

/// A prefix of a sequence is no wider than the sequence.
proof fn lemma_row_width_prefix(images: Seq<Image>, i: int)
    requires
        0 <= i <= images.len(),
    ensures
        0 <= spec_row_width(images.take(i)) <= spec_row_width(images),
    decreases images.len(),
{
    if i < images.len() {
        assert(images.drop_last().take(i) =~= images.take(i));
        lemma_row_width_prefix(images.drop_last(), i);
    } else {
        assert(images.take(i) =~= images);
    }
    lemma_row_width_nonneg(images.take(i));
}

/// A row width is not negative.
proof fn lemma_row_width_nonneg(images: Seq<Image>)
    ensures
        spec_row_width(images) >= 0,
    decreases images.len(),
{
    if images.len() > 0 {
        lemma_row_width_nonneg(images.drop_last());
    }
}

/// A tallest height is not negative.
proof fn lemma_max_height_nonneg(images: Seq<Image>)
    ensures
        spec_max_height(images) >= 0,
    decreases images.len(),
{
    if images.len() > 0 {
        lemma_max_height_nonneg(images.drop_last());
    }
}

/// The bands of a prefix of the sequences are no taller than those of all of them.
proof fn lemma_bands_height_prefix(sequences: Seq<Seq<Image>>, s: int)
    requires
        0 <= s <= sequences.len(),
    ensures
        0 <= spec_bands_height(sequences.take(s)) <= spec_bands_height(sequences),
    decreases sequences.len(),
{
    if s < sequences.len() {
        assert(sequences.drop_last().take(s) =~= sequences.take(s));
        lemma_bands_height_prefix(sequences.drop_last(), s);
        lemma_max_height_nonneg(sequences.last());
    } else {
        assert(sequences.take(s) =~= sequences);
    }
    lemma_bands_height_nonneg(sequences.take(s));
}

/// A height of bands is not negative.
proof fn lemma_bands_height_nonneg(sequences: Seq<Seq<Image>>)
    ensures
        spec_bands_height(sequences) >= 0,
    decreases sequences.len(),
{
    if sequences.len() > 0 {
        lemma_bands_height_nonneg(sequences.drop_last());
        lemma_max_height_nonneg(sequences.last());
    }
}

/// Compute the plate's width and height, and the height of each sequence's band.
///
/// Fails with [`Error::SizeLimitExceeded`] where they cannot be computed in a `usize`.
fn plate_layout(sequences: &Vec<Vec<Image>>) -> (r: RinghopperResult<(usize, usize, Vec<usize>)>)
    ensures
        match r {
            Ok((width, height, heights)) => {
                &&& spec_layout_fits(spec_sequences(sequences))
                &&& width == spec_plate_width(spec_sequences(sequences))
                &&& height == spec_plate_height(spec_sequences(sequences))
                &&& heights@.len() == sequences@.len()
                &&& forall|s: int| 0 <= s < heights@.len() ==> heights@[s] == spec_band_height(#[trigger] spec_sequences(sequences)[s])
            },
            Err(e) => !spec_layout_fits(spec_sequences(sequences)) && e == Error::SizeLimitExceeded,
        },
{
    let ghost all = spec_sequences(sequences);
    let mut width: usize = 4;
    let mut height: usize = 2;
    let mut heights: Vec<usize> = Vec::new();
    let mut s: usize = 0;
    while s < sequences.len()
        invariant
            s <= sequences@.len(),
            all == spec_sequences(sequences),
            all.len() == sequences@.len(),
            width == spec_plate_width(all.take(s as int)),
            height == 2 + spec_bands_height(all.take(s as int)),
            heights@.len() == s,
            forall|t: int| 0 <= t < s ==> heights@[t] == spec_band_height(#[trigger] all[t]),
            forall|t: int| 0 <= t < s ==> spec_row_width(#[trigger] all[t]) <= usize::MAX,
        decreases sequences@.len() - s,
    {
        let images = &sequences[s];
        let ghost seq = all[s as int];
        assert(seq == images@);
        let mut current_width: usize = 0;
        let mut current_height: usize = 0;
        let mut i: usize = 0;
        while i < images.len()
            invariant
                i <= images@.len(),
                seq == images@,
                all == spec_sequences(sequences),
                s < all.len(),
                seq == all[s as int],
                current_width == spec_row_width(seq.take(i as int)),
                current_height == spec_max_height(seq.take(i as int)),
            decreases images@.len() - i,
        {
            assert(seq.take(i + 1).drop_last() =~= seq.take(i as int));
            let image = &images[i];
            // 2 pixels for padding on left and right side of each image
            let w = match current_width.checked_add(image.width) {
                Some(w) => w,
                None => {
                    proof {
                        lemma_row_width_prefix(seq, i + 1);
                    }
                    return Err(Error::SizeLimitExceeded);
                },
            };
            current_width = match w.checked_add(2) {
                Some(w) => w,
                None => {
                    proof {
                        lemma_row_width_prefix(seq, i + 1);
                    }
                    return Err(Error::SizeLimitExceeded);
                },
            };
            if image.height > current_height {
                current_height = image.height;
            }
            i = i + 1;
        }
        assert(seq.take(i as int) =~= seq);
        let band = match current_height.checked_add(3) {
            Some(b) => b,
            None => return Err(Error::SizeLimitExceeded),
        };
        assert(all.take(s + 1).drop_last() =~= all.take(s as int));
        if current_width > width {
            width = current_width;
        }
        height = match height.checked_add(band) {
            Some(h) => h,
            None => {
                proof {
                    lemma_bands_height_prefix(all, s + 1);
                }
                return Err(Error::SizeLimitExceeded);
            },
        };
        heights.push(band);
        s = s + 1;
    }
    assert(all.take(s as int) =~= all);
    proof {
        lemma_bands_height_nonneg(all);
    }
    Ok((width, height - 1, heights))
}

/// A color made fully opaque.
pub open spec fn spec_opaque(color: u32) -> u32 {
    color | 0xFF000000u32
}

/// The pixel `k` of image `i` of sequence `s` exists.
pub open spec fn spec_is_pixel(sequences: Seq<Seq<Image>>, s: int, i: int, k: int) -> bool {
    0 <= s < sequences.len() && 0 <= i < sequences[s].len() && 0 <= k < sequences[s][i].data@.len()
}

/// The colors of the plate's images, made opaque.
pub open spec fn spec_plate_colors(sequences: Seq<Seq<Image>>) -> Set<u32> {
    Set::new(
        |c: u32|
            exists|s: int, i: int, k: int| #[trigger]
                spec_is_pixel(sequences, s, i, k) && c == spec_opaque(sequences[s][i].data@[k].color),
    )
}

/// `(s, i, k)` comes before `(s2, i2, k2)`.
pub open spec fn spec_pixel_before(s: int, i: int, k: int, s2: int, i2: int, k2: int) -> bool {
    s < s2 || (s == s2 && i < i2) || (s == s2 && i == i2 && k < k2)
}

/// The colors, made opaque, of the pixels that come before pixel `k` of image `i` of sequence `s`.
pub open spec fn spec_colors_before(sequences: Seq<Seq<Image>>, s: int, i: int, k: int) -> Set<u32> {
    Set::new(
        |c: u32|
            exists|s2: int, i2: int, k2: int| #[trigger]
                spec_is_pixel(sequences, s2, i2, k2) && spec_pixel_before(s2, i2, k2, s, i, k) && c == spec_opaque(
                    sequences[s2][i2].data@[k2].color,
                ),
    )
}

/// Collect the colors of the plate's images, made opaque.
fn plate_colors(sequences: &Vec<Vec<Image>>) -> (r: HashSet<u32>)
    ensures
        r@ == spec_plate_colors(spec_sequences(sequences)),
{
    broadcast use vstd::std_specs::hash::group_hash_axioms;
    let ghost all = spec_sequences(sequences);
    let mut colors: HashSet<u32> = HashSet::new();
    assert(colors@ =~= spec_colors_before(all, 0, 0, 0));
    let mut s: usize = 0;
    while s < sequences.len()
        invariant
            s <= sequences@.len(),
            all == spec_sequences(sequences),
            colors@ == spec_colors_before(all, s as int, 0, 0),
        decreases sequences@.len() - s,
    {
        let images = &sequences[s];
        let mut i: usize = 0;
        while i < images.len()
            invariant
                s < sequences@.len(),
                i <= images@.len(),
                images@ == all[s as int],
                all == spec_sequences(sequences),
                colors@ == spec_colors_before(all, s as int, i as int, 0),
            decreases images@.len() - i,
        {
            let pixels = &images[i].data;
            let mut k: usize = 0;
            while k < pixels.len()
                invariant
                    s < sequences@.len(),
                    i < images@.len(),
                    k <= pixels@.len(),
                    images@ == all[s as int],
                    pixels@ == all[s as int][i as int].data@,
                    all == spec_sequences(sequences),
                    colors@ == spec_colors_before(all, s as int, i as int, k as int),
                decreases pixels@.len() - k,
            {
                let c = pixels[k].color | 0xFF000000;
                colors.insert(c);
                proof {
                    assert(spec_is_pixel(all, s as int, i as int, k as int));
                    assert(colors@ =~= spec_colors_before(all, s as int, i as int, k + 1));
                }
                k = k + 1;
            }
            proof {
                assert(spec_colors_before(all, s as int, i as int, k as int) =~= spec_colors_before(all, s as int, i + 1, 0));
            }
            i = i + 1;
        }
        proof {
            assert(spec_colors_before(all, s as int, i as int, 0) =~= spec_colors_before(all, s + 1, 0, 0));
        }
        s = s + 1;
    }
    proof {
        assert(spec_colors_before(all, s as int, 0, 0) =~= spec_plate_colors(all));
    }
    colors
}

/// The `n`-th opaque color tried: red, then green, then blue counting up from 0, or from 255 down where going from
/// white to black.
pub open spec fn spec_candidate(n: int, white_to_black: bool) -> u32 {
    if white_to_black {
        (0xFFFFFFFFu32 - n) as u32
    } else {
        (0xFF000000u32 + n) as u32
    }
}

/// A color is neither used by the images nor one of the excluded colors.
pub open spec fn spec_available(colors: Set<u32>, excluding: (Option<u32>, Option<u32>), c: u32) -> bool {
    !colors.contains(c) && excluding.0 != Some(c) && excluding.1 != Some(c)
}

/// The first opaque color tried that is available, if there is one.
pub open spec fn spec_first_available(colors: Set<u32>, excluding: (Option<u32>, Option<u32>), white_to_black: bool) -> Option<
    u32,
> {
    if exists|n: int| 0 <= n < 0x1000000 && spec_available(colors, excluding, #[trigger] spec_candidate(n, white_to_black)) {
        let n = choose|n: int|
            0 <= n < 0x1000000 && spec_available(colors, excluding, #[trigger] spec_candidate(n, white_to_black)) && forall|
                m: int,
            |
                0 <= m < n ==> !spec_available(colors, excluding, #[trigger] spec_candidate(m, white_to_black));
        Some(spec_candidate(n, white_to_black))
    } else {
        None
    }
}

/// Find the first opaque color tried that is available.
fn find_first_available_pixel(colors: &HashSet<u32>, excluding: (Option<u32>, Option<u32>), white_to_black: bool) -> (r: Option<
    u32,
>)
    ensures
        r == spec_first_available(colors@, excluding, white_to_black),
{
    broadcast use vstd::std_specs::hash::group_hash_axioms;
    let mut n: u32 = 0;
    while n < 0x1000000
        invariant
            n <= 0x1000000,
            forall|m: int| 0 <= m < n ==> !spec_available(colors@, excluding, #[trigger] spec_candidate(m, white_to_black)),
        decreases 0x1000000 - n,
    {
        let color = if white_to_black { 0xFFFFFFFF - n } else { 0xFF000000 + n };
        assert(color == spec_candidate(n as int, white_to_black));
        let excluded = match excluding.0 {
            Some(e) => e == color,
            None => false,
        } || match excluding.1 {
            Some(e) => e == color,
            None => false,
        };
        if !excluded && !colors.contains(&color) {
            proof {
                let w = choose|w: int|
                    0 <= w < 0x1000000 && spec_available(colors@, excluding, #[trigger] spec_candidate(w, white_to_black))
                        && forall|m: int|
                        0 <= m < w ==> !spec_available(colors@, excluding, #[trigger] spec_candidate(m, white_to_black));
                assert(spec_available(colors@, excluding, spec_candidate(n as int, white_to_black)));
                if w < n {
                } else if w > n {
                    assert(!spec_available(colors@, excluding, spec_candidate(n as int, white_to_black)));
                }
            }
            return Some(color);
        }
        n = n + 1;
    }
    None
}

/// Image `i` of sequence `s` covers the pixel at column `x` and row `y`.
pub open spec fn spec_covers(sequences: Seq<Seq<Image>>, s: int, i: int, x: int, y: int) -> bool {
    &&& 0 <= s < sequences.len()
    &&& 0 <= i < sequences[s].len()
    &&& spec_image_x(sequences[s], i) <= x < spec_image_x(sequences[s], i) + sequences[s][i].width
    &&& spec_band_y(sequences, s) <= y < spec_band_y(sequences, s) + sequences[s][i].height
}

/// Row `y` is the divider row of a sequence's band.
pub open spec fn spec_divider_row(sequences: Seq<Seq<Image>>, y: int) -> bool {
    exists|s: int| 0 <= s < sequences.len() && y == #[trigger] spec_band_y(sequences, s) - 2
}

/// The color of the pixel at column `x` and row `y` of the plate: that of the image that covers it; else the
/// divider on the divider rows and as the second pixel of the header; else the padding color, if any, as the third
/// pixel of the header; else the background.
pub open spec fn spec_plate_pixel(
    sequences: Seq<Seq<Image>>,
    background: u32,
    divider: u32,
    padding: Option<u32>,
    x: int,
    y: int,
) -> u32 {
    if exists|s: int, i: int| spec_covers(sequences, s, i, x, y) {
        let (s, i) = choose|s: int, i: int| spec_covers(sequences, s, i, x, y);
        let image = sequences[s][i];
        image.data@[(y - spec_band_y(sequences, s)) * image.width + (x - spec_image_x(sequences[s], i))].color
    } else if spec_divider_row(sequences, y) || (y == 0 && x == 1) {
        divider
    } else if y == 0 && x == 2 && padding is Some {
        padding.unwrap()
    } else {
        background
    }
}

/// The position in the plate's pixels of column `x` and row `y`.
pub open spec fn spec_at(width: int, x: int, y: int) -> int {
    y * width + x
}

/// The next band starts below this one.
proof fn lemma_band_step(sequences: Seq<Seq<Image>>, s: int)
    requires
        0 <= s < sequences.len(),
    ensures
        spec_band_y(sequences, s + 1) == spec_band_y(sequences, s) + spec_band_height(sequences[s]),
{
    assert(sequences.take(s + 1).drop_last() =~= sequences.take(s));
}

/// The next image starts to the right of this one.
proof fn lemma_image_step(images: Seq<Image>, i: int)
    requires
        0 <= i < images.len(),
    ensures
        spec_image_x(images, i + 1) == spec_image_x(images, i) + images[i].width + 2,
{
    assert(images.take(i + 1).drop_last() =~= images.take(i));
}

/// Bands come one below the other.
proof fn lemma_band_order(sequences: Seq<Seq<Image>>, s: int, t: int)
    requires
        0 <= s < t <= sequences.len(),
    ensures
        spec_band_y(sequences, t) >= spec_band_y(sequences, s) + spec_band_height(sequences[s]),
    decreases t - s,
{
    lemma_band_step(sequences, s);
    if t > s + 1 {
        lemma_band_order(sequences, s + 1, t);
        lemma_max_height_nonneg(sequences[s + 1]);
    }
}

/// Images come one to the right of the other.
proof fn lemma_image_order(images: Seq<Image>, i: int, j: int)
    requires
        0 <= i < j <= images.len(),
    ensures
        spec_image_x(images, j) >= spec_image_x(images, i) + images[i].width + 2,
    decreases j - i,
{
    lemma_image_step(images, i);
    if j > i + 1 {
        lemma_image_order(images, i + 1, j);
    }
}

/// No image is taller than the tallest.
proof fn lemma_max_height_bound(images: Seq<Image>, i: int)
    requires
        0 <= i < images.len(),
    ensures
        images[i].height <= spec_max_height(images),
    decreases images.len(),
{
    if i < images.len() - 1 {
        lemma_max_height_bound(images.drop_last(), i);
    }
}

/// The images of a sequence end before its row width does.
proof fn lemma_image_fits(images: Seq<Image>, i: int)
    requires
        0 <= i < images.len(),
    ensures
        1 <= spec_image_x(images, i),
        spec_image_x(images, i) + images[i].width + 1 <= spec_row_width(images),
{
    lemma_image_step(images, i);
    lemma_row_width_prefix(images, i);
    lemma_row_width_prefix(images, i + 1);
    assert(spec_image_x(images, images.len() as int) == 1 + spec_row_width(images)) by {
        assert(images.take(images.len() as int) =~= images);
    }
}

/// The plate is as wide as each sequence's images.
proof fn lemma_plate_width_bound(sequences: Seq<Seq<Image>>, s: int)
    requires
        0 <= s < sequences.len(),
    ensures
        spec_row_width(sequences[s]) <= spec_plate_width(sequences),
        4 <= spec_plate_width(sequences),
    decreases sequences.len(),
{
    lemma_plate_width_min(sequences);
    if s < sequences.len() - 1 {
        lemma_plate_width_bound(sequences.drop_last(), s);
    }
}

/// The plate is at least 4 wide.
proof fn lemma_plate_width_min(sequences: Seq<Seq<Image>>)
    ensures
        4 <= spec_plate_width(sequences),
    decreases sequences.len(),
{
    if sequences.len() > 0 {
        lemma_plate_width_min(sequences.drop_last());
    }
}

/// The bands fit in the plate, below the header row.
proof fn lemma_band_bounds(sequences: Seq<Seq<Image>>, s: int)
    requires
        0 <= s < sequences.len(),
    ensures
        spec_band_y(sequences, s) >= 3,
        spec_band_y(sequences, s) + spec_max_height(sequences[s]) < spec_plate_height(sequences),
{
    lemma_bands_height_prefix(sequences, s);
    lemma_band_step(sequences, s);
    lemma_bands_height_prefix(sequences, s + 1);
}

/// A pixel that an image covers lies in that image's band, and only that image covers it.
proof fn lemma_covers_unique(sequences: Seq<Seq<Image>>, s: int, i: int, s2: int, i2: int, x: int, y: int)
    requires
        spec_covers(sequences, s, i, x, y),
        spec_covers(sequences, s2, i2, x, y),
    ensures
        s == s2,
        i == i2,
{
    lemma_max_height_bound(sequences[s], i);
    lemma_max_height_bound(sequences[s2], i2);
    if s < s2 {
        lemma_band_order(sequences, s, s2);
    } else if s2 < s {
        lemma_band_order(sequences, s2, s);
    }
    if i < i2 {
        lemma_image_order(sequences[s], i, i2);
    } else if i2 < i {
        lemma_image_order(sequences[s], i2, i);
    }
}

/// Around the images of band `s`, from the row above them to the row below the tallest, only that band's images
/// cover pixels, and there is no divider row.
proof fn lemma_band_zone(sequences: Seq<Seq<Image>>, s: int, y: int)
    requires
        0 <= s < sequences.len(),
        spec_band_y(sequences, s) - 1 <= y <= spec_band_y(sequences, s) + spec_max_height(sequences[s]),
    ensures
        !spec_divider_row(sequences, y),
        forall|s2: int, i2: int, x: int| #[trigger] spec_covers(sequences, s2, i2, x, y) ==> s2 == s,
{
    assert forall|t: int| 0 <= t < sequences.len() implies y != #[trigger] spec_band_y(sequences, t) - 2 by {
        if t < s {
            lemma_band_order(sequences, t, s);
        } else if t > s {
            lemma_band_order(sequences, s, t);
        }
    }
    assert forall|s2: int, i2: int, x: int| #[trigger] spec_covers(sequences, s2, i2, x, y) implies s2 == s by {
        lemma_max_height_bound(sequences[s2], i2);
        if s2 < s {
            lemma_band_order(sequences, s2, s);
        } else if s2 > s {
            lemma_band_order(sequences, s, s2);
        }
    }
}

/// The divider row of band `s` holds the divider color.
proof fn lemma_pixel_divider(sequences: Seq<Seq<Image>>, background: u32, divider: u32, padding: Option<u32>, s: int, x: int)
    requires
        0 <= s < sequences.len(),
    ensures
        spec_plate_pixel(sequences, background, divider, padding, x, spec_band_y(sequences, s) - 2) == divider,
{
    let y = spec_band_y(sequences, s) - 2;
    assert forall|s2: int, i2: int| !spec_covers(sequences, s2, i2, x, y) by {
        if spec_covers(sequences, s2, i2, x, y) {
            lemma_max_height_bound(sequences[s2], i2);
            if s2 < s {
                lemma_band_order(sequences, s2, s);
            } else if s2 > s {
                lemma_band_order(sequences, s, s2);
            }
        }
    }
    assert(spec_divider_row(sequences, y));
}

/// A pixel that image `i` of sequence `s` covers holds that image's pixel.
proof fn lemma_pixel_image(
    sequences: Seq<Seq<Image>>,
    background: u32,
    divider: u32,
    padding: Option<u32>,
    s: int,
    i: int,
    x: int,
    y: int,
)
    requires
        spec_covers(sequences, s, i, x, y),
    ensures
        spec_plate_pixel(sequences, background, divider, padding, x, y) == sequences[s][i].data@[(y - spec_band_y(
            sequences,
            s,
        )) * sequences[s][i].width + (x - spec_image_x(sequences[s], i))].color,
{
    let (s2, i2) = choose|s2: int, i2: int| spec_covers(sequences, s2, i2, x, y);
    lemma_covers_unique(sequences, s, i, s2, i2, x, y);
}

/// The plate holds each image, pixel for pixel, at its place: image `i` of sequence `s` starts at the column after
/// the images before it, each with a column of background on either side, and at the row of its sequence's images.
pub proof fn law_plate_holds_images(
    sequences: Seq<Seq<Image>>,
    background: u32,
    divider: u32,
    padding: Option<u32>,
    s: int,
    i: int,
    px: int,
    py: int,
)
    requires
        0 <= s < sequences.len(),
        0 <= i < sequences[s].len(),
        0 <= px < sequences[s][i].width,
        0 <= py < sequences[s][i].height,
    ensures
        spec_plate_pixel(
            sequences,
            background,
            divider,
            padding,
            spec_image_x(sequences[s], i) + px,
            spec_band_y(sequences, s) + py,
        ) == sequences[s][i].data@[py * sequences[s][i].width + px].color,
{
    let x = spec_image_x(sequences[s], i) + px;
    let y = spec_band_y(sequences, s) + py;
    assert(spec_covers(sequences, s, i, x, y));
    lemma_pixel_image(sequences, background, divider, padding, s, i, x, y);
}

/// A pixel of band `s`, from the row above its images to the row below the tallest, that none of its images covers
/// holds the background.
proof fn lemma_pixel_band_background(
    sequences: Seq<Seq<Image>>,
    background: u32,
    divider: u32,
    padding: Option<u32>,
    s: int,
    x: int,
    y: int,
)
    requires
        0 <= s < sequences.len(),
        spec_band_y(sequences, s) - 1 <= y <= spec_band_y(sequences, s) + spec_max_height(sequences[s]),
        forall|i: int| 0 <= i < sequences[s].len() ==> !spec_covers(sequences, s, i, x, y),
    ensures
        spec_plate_pixel(sequences, background, divider, padding, x, y) == background,
{
    lemma_band_zone(sequences, s, y);
    lemma_band_bounds(sequences, s);
    assert forall|s2: int, i2: int| !spec_covers(sequences, s2, i2, x, y) by {
        if spec_covers(sequences, s2, i2, x, y) {
            assert(s2 == s);
        }
    }
}

/// The header row holds the divider as its second pixel and the padding color, if any, as its third.
proof fn lemma_pixel_header(sequences: Seq<Seq<Image>>, background: u32, divider: u32, padding: Option<u32>, x: int)
    ensures
        spec_plate_pixel(sequences, background, divider, padding, x, 0) == if x == 1 {
            divider
        } else if x == 2 && padding is Some {
            padding.unwrap()
        } else {
            background
        },
{
    assert forall|s: int, i: int| !spec_covers(sequences, s, i, x, 0) by {
        if spec_covers(sequences, s, i, x, 0) {
            lemma_band_bounds(sequences, s);
        }
    }
    assert forall|t: int| 0 <= t < sequences.len() implies 0 != #[trigger] spec_band_y(sequences, t) - 2 by {
        lemma_band_bounds(sequences, t);
    }
}

/// Distinct pixels have distinct positions.
proof fn lemma_at_injective(width: int, x: int, y: int, x2: int, y2: int)
    requires
        0 <= x < width,
        0 <= x2 < width,
        0 <= y,
        0 <= y2,
        spec_at(width, x, y) == spec_at(width, x2, y2),
    ensures
        x == x2,
        y == y2,
{
    if y < y2 {
        assert(y * width + width <= y2 * width) by (nonlinear_arith)
            requires
                y < y2,
                0 <= width,
        ;
    } else if y2 < y {
        assert(y2 * width + width <= y * width) by (nonlinear_arith)
            requires
                y2 < y,
                0 <= width,
        ;
    }
}

/// The position of a pixel lies within the plate.
proof fn lemma_at_bounds(width: int, height: int, x: int, y: int)
    requires
        0 <= x < width,
        0 <= y < height,
    ensures
        0 <= spec_at(width, x, y) < width * height,
        spec_at(width, x, y) == y * width + x,
{
    assert(0 <= y * width) by (nonlinear_arith)
        requires
            0 <= y,
            0 <= width,
    ;
    assert(y * width + width <= height * width) by (nonlinear_arith)
        requires
            y < height,
            0 <= width,
    ;
    assert(height * width == width * height) by (nonlinear_arith);
}

/// Which pixels hold their final color while band `s` is painted: all above its images; in the rows of its images,
/// those left of image `i`; and, of image `i`, its rows above `py` and the first `px` pixels of row `py`.
pub open spec fn spec_painted(sequences: Seq<Seq<Image>>, s: int, i: int, py: int, px: int, x: int, y: int) -> bool {
    let top = spec_band_y(sequences, s);
    let images = sequences[s];
    let left = spec_image_x(images, i);
    ||| y < top
    ||| (y < top + spec_max_height(images) && x < left)
    ||| (i < images.len() && left <= x < left + images[i].width && top <= y < top + images[i].height && (y - top < py || (
    y - top == py && x - left < px)))
}

/// The pixels of the plate hold their final colors where `painted` says, and the background elsewhere.
pub open spec fn spec_plate_state(
    data: Seq<ColorARGBInt>,
    sequences: Seq<Seq<Image>>,
    width: int,
    height: int,
    background: u32,
    divider: u32,
    padding: Option<u32>,
    painted: spec_fn(int, int) -> bool,
) -> bool {
    &&& data.len() == width * height
    &&& forall|x: int, y: int|
        0 <= x < width && 0 <= y < height ==> (#[trigger] data[spec_at(width, x, y)]).color == if painted(x, y) {
            spec_plate_pixel(sequences, background, divider, padding, x, y)
        } else {
            background
        }
}

/// What the painting of the plate relies on.
pub open spec fn spec_paint_inputs(sequences: Seq<Seq<Image>>, width: int, height: int) -> bool {
    &&& spec_layout_fits(sequences)
    &&& width == spec_plate_width(sequences)
    &&& height == spec_plate_height(sequences)
    &&& width * height <= usize::MAX
    &&& forall|s: int, i: int|
        0 <= s < sequences.len() && 0 <= i < sequences[s].len() ==> #[trigger] sequences[s][i].data@.len()
            >= sequences[s][i].width * sequences[s][i].height
}

/// Paint image `i` of band `s`, whose top left pixel is at `left` and `top`.
fn paint_image(
    data: &mut Vec<ColorARGBInt>,
    sequences: &Vec<Vec<Image>>,
    s: usize,
    i: usize,
    left: usize,
    top: usize,
    width: usize,
    height: usize,
    background: u32,
    divider: u32,
    padding: Option<u32>,
)
    requires
        spec_paint_inputs(spec_sequences(sequences), width as int, height as int),
        s < sequences@.len(),
        i < sequences@[s as int]@.len(),
        left == spec_image_x(spec_sequences(sequences)[s as int], i as int),
        top == spec_band_y(spec_sequences(sequences), s as int),
        spec_plate_state(
            old(data)@,
            spec_sequences(sequences),
            width as int,
            height as int,
            background,
            divider,
            padding,
            |x: int, y: int| spec_painted(spec_sequences(sequences), s as int, i as int, 0, 0, x, y),
        ),
    ensures
        spec_plate_state(
            final(data)@,
            spec_sequences(sequences),
            width as int,
            height as int,
            background,
            divider,
            padding,
            |x: int, y: int|
                spec_painted(
                    spec_sequences(sequences),
                    s as int,
                    i as int,
                    sequences@[s as int]@[i as int].height as int,
                    0,
                    x,
                    y,
                ),
        ),
{
    let ghost all = spec_sequences(sequences);
    let image = &sequences[s][i];
    let ghost img = all[s as int][i as int];
    assert(img == *image);
    proof {
        lemma_band_bounds(all, s as int);
        lemma_max_height_bound(all[s as int], i as int);
        lemma_image_fits(all[s as int], i as int);
        lemma_plate_width_bound(all, s as int);
        assert(image.data@.len() >= image.width * image.height);
    }
    let n_pixels = image.data.len();
    let mut k: usize = 0;
    let mut py: usize = 0;
    while py < image.height
        invariant
            spec_paint_inputs(all, width as int, height as int),
            all == spec_sequences(sequences),
            s < all.len(),
            i < all[s as int].len(),
            img == all[s as int][i as int],
            img == *image,
            left == spec_image_x(all[s as int], i as int),
            top == spec_band_y(all, s as int),
            top + img.height < height,
            left + img.width < width,
            image.data@.len() >= image.width * image.height,
            n_pixels == image.data@.len(),
            py <= image.height,
            k == py * image.width,
            spec_plate_state(
                data@,
                all,
                width as int,
                height as int,
                background,
                divider,
                padding,
                |x: int, y: int| spec_painted(all, s as int, i as int, py as int, 0, x, y),
            ),
        decreases image.height - py,
    {
        let row = top + py;
        proof {
            lemma_at_bounds(width as int, height as int, 0, row as int);
        }
        let row_start = row * width;
        let mut px: usize = 0;
        while px < image.width
            invariant
                spec_paint_inputs(all, width as int, height as int),
                all == spec_sequences(sequences),
                s < all.len(),
                i < all[s as int].len(),
                img == all[s as int][i as int],
                img == *image,
                left == spec_image_x(all[s as int], i as int),
                top == spec_band_y(all, s as int),
                top + img.height < height,
                left + img.width < width,
                image.data@.len() >= image.width * image.height,
                n_pixels == image.data@.len(),
                py < image.height,
                row == top + py,
                row_start == row * width,
                px <= image.width,
                k == py * image.width + px,
                spec_plate_state(
                    data@,
                    all,
                    width as int,
                    height as int,
                    background,
                    divider,
                    padding,
                    |x: int, y: int| spec_painted(all, s as int, i as int, py as int, px as int, x, y),
                ),
            decreases image.width - px,
        {
            let x0 = left + px;
            proof {
                lemma_at_bounds(width as int, height as int, x0 as int, row as int);
                assert(k < image.width * image.height) by (nonlinear_arith)
                    requires
                        k == py * image.width + px,
                        px < image.width,
                        py < image.height,
                ;
                assert(spec_covers(all, s as int, i as int, x0 as int, row as int));
                lemma_pixel_image(all, background, divider, padding, s as int, i as int, x0 as int, row as int);
            }
            let ghost before = data@;
            data.set(row_start + x0, image.data[k]);
            proof {
                let painted_before = |x: int, y: int| spec_painted(all, s as int, i as int, py as int, px as int, x, y);
                let painted_after = |x: int, y: int| spec_painted(all, s as int, i as int, py as int, px + 1, x, y);
                assert forall|x: int, y: int| 0 <= x < width && 0 <= y < height implies (#[trigger] data@[spec_at(
                    width as int,
                    x,
                    y,
                )]).color == if painted_after(x, y) {
                    spec_plate_pixel(all, background, divider, padding, x, y)
                } else {
                    background
                } by {
                    lemma_at_bounds(width as int, height as int, x, y);
                    if x == x0 && y == row {
                    } else {
                        if spec_at(width as int, x, y) == spec_at(width as int, x0 as int, row as int) {
                            lemma_at_injective(width as int, x, y, x0 as int, row as int);
                        }
                        assert(before[spec_at(width as int, x, y)] == data@[spec_at(width as int, x, y)]);
                        assert(painted_after(x, y) == painted_before(x, y));
                    }
                }
            }
            k = k + 1;
            px = px + 1;
        }
        proof {
            assert(k == (py + 1) * image.width) by (nonlinear_arith)
                requires
                    k == py * image.width + image.width,
            ;
            assert forall|x: int, y: int|
                #[trigger] spec_painted(all, s as int, i as int, py as int, image.width as int, x, y) == spec_painted(
                    all,
                    s as int,
                    i as int,
                    py + 1,
                    0,
                    x,
                    y,
                ) by {}
        }
        py = py + 1;
    }
}

/// Paint band `s`, whose images start at row `top`: its divider row and its images.
fn paint_band(
    data: &mut Vec<ColorARGBInt>,
    sequences: &Vec<Vec<Image>>,
    s: usize,
    top: usize,
    width: usize,
    height: usize,
    background: u32,
    divider: u32,
    padding: Option<u32>,
)
    requires
        spec_paint_inputs(spec_sequences(sequences), width as int, height as int),
        s < sequences@.len(),
        top == spec_band_y(spec_sequences(sequences), s as int),
        spec_plate_state(
            old(data)@,
            spec_sequences(sequences),
            width as int,
            height as int,
            background,
            divider,
            padding,
            |x: int, y: int| y < spec_band_y(spec_sequences(sequences), s as int) - 2,
        ),
    ensures
        spec_plate_state(
            final(data)@,
            spec_sequences(sequences),
            width as int,
            height as int,
            background,
            divider,
            padding,
            |x: int, y: int| y < spec_band_y(spec_sequences(sequences), s + 1) - 2,
        ),
{
    let ghost all = spec_sequences(sequences);
    proof {
        lemma_band_bounds(all, s as int);
        lemma_band_step(all, s as int);
        lemma_plate_width_min(all);
    }
    // The divider row
    let row = top - 2;
    proof {
        lemma_at_bounds(width as int, height as int, 0, row as int);
    }
    let row_start = row * width;
    let mut x: usize = 0;
    while x < width
        invariant
            spec_paint_inputs(all, width as int, height as int),
            all == spec_sequences(sequences),
            s < all.len(),
            top == spec_band_y(all, s as int),
            3 <= top < height,
            row == top - 2,
            row_start == row * width,
            x <= width,
            spec_plate_state(
                data@,
                all,
                width as int,
                height as int,
                background,
                divider,
                padding,
                |x2: int, y2: int| y2 < row || (y2 == row && x2 < x),
            ),
        decreases width - x,
    {
        proof {
            lemma_at_bounds(width as int, height as int, x as int, row as int);
            lemma_pixel_divider(all, background, divider, padding, s as int, x as int);
        }
        let ghost before = data@;
        data.set(row_start + x, ColorARGBInt { color: divider });
        proof {
            assert forall|x2: int, y2: int| 0 <= x2 < width && 0 <= y2 < height implies (#[trigger] data@[spec_at(
                width as int,
                x2,
                y2,
            )]).color == if y2 < row || (y2 == row && x2 < x + 1) {
                spec_plate_pixel(all, background, divider, padding, x2, y2)
            } else {
                background
            } by {
                lemma_at_bounds(width as int, height as int, x2, y2);
                if !(x2 == x && y2 == row) {
                    if spec_at(width as int, x2, y2) == spec_at(width as int, x as int, row as int) {
                        lemma_at_injective(width as int, x2, y2, x as int, row as int);
                    }
                    assert(before[spec_at(width as int, x2, y2)] == data@[spec_at(width as int, x2, y2)]);
                }
            }
        }
        x = x + 1;
    }
    // The row below it and the column left of the images hold the background.
    proof {
        assert forall|x2: int, y2: int| 0 <= x2 < width && 0 <= y2 < height implies (#[trigger] data@[spec_at(
            width as int,
            x2,
            y2,
        )]).color == if spec_painted(all, s as int, 0, 0, 0, x2, y2) {
            spec_plate_pixel(all, background, divider, padding, x2, y2)
        } else {
            background
        } by {
            assert(spec_image_x(all[s as int], 0) == 1) by {
                assert(all[s as int].take(0) =~= Seq::<Image>::empty());
            }
            if spec_painted(all, s as int, 0, 0, 0, x2, y2) && !(y2 < row || (y2 == row && x2 < width)) {
                lemma_max_height_nonneg(all[s as int]);
                assert forall|i: int| 0 <= i < all[s as int].len() implies !spec_covers(all, s as int, i, x2, y2) by {
                    lemma_image_fits(all[s as int], i);
                }
                lemma_pixel_band_background(all, background, divider, padding, s as int, x2, y2);
            }
        }
    }
    // The images
    let images = &sequences[s];
    let mut left: usize = 1;
    let mut i: usize = 0;
    proof {
        assert(all[s as int].take(0) =~= Seq::<Image>::empty());
    }
    while i < images.len()
        invariant
            spec_paint_inputs(all, width as int, height as int),
            all == spec_sequences(sequences),
            s < all.len(),
            images@ == all[s as int],
            top == spec_band_y(all, s as int),
            i <= images@.len(),
            left == spec_image_x(all[s as int], i as int),
            spec_plate_state(
                data@,
                all,
                width as int,
                height as int,
                background,
                divider,
                padding,
                |x2: int, y2: int| spec_painted(all, s as int, i as int, 0, 0, x2, y2),
            ),
        decreases images@.len() - i,
    {
        paint_image(data, sequences, s, i, left, top, width, height, background, divider, padding);
        proof {
            lemma_image_step(all[s as int], i as int);
            lemma_image_fits(all[s as int], i as int);
            lemma_plate_width_bound(all, s as int);
            lemma_max_height_bound(all[s as int], i as int);
            lemma_row_width_prefix(all[s as int], i + 1);
            lemma_band_bounds(all, s as int);
            assert(width < usize::MAX) by (nonlinear_arith)
                requires
                    width * height <= usize::MAX,
                    height >= 3,
                    width >= 4,
            ;
            let h = images@[i as int].height as int;
            assert forall|x2: int, y2: int| 0 <= x2 < width && 0 <= y2 < height implies (#[trigger] data@[spec_at(
                width as int,
                x2,
                y2,
            )]).color == if spec_painted(all, s as int, i + 1, 0, 0, x2, y2) {
                spec_plate_pixel(all, background, divider, padding, x2, y2)
            } else {
                background
            } by {
                if spec_painted(all, s as int, i + 1, 0, 0, x2, y2) && !spec_painted(all, s as int, i as int, h, 0, x2, y2) {
                    assert forall|j: int| 0 <= j < all[s as int].len() implies !spec_covers(all, s as int, j, x2, y2) by {
                        if j < i {
                            lemma_image_order(all[s as int], j, i as int);
                        } else if j > i + 1 {
                            lemma_image_order(all[s as int], i + 1, j);
                        }
                    }
                    lemma_pixel_band_background(all, background, divider, padding, s as int, x2, y2);
                }
            }
        }
        left = left + images[i].width + 2;
        i = i + 1;
    }
    // The rest of the band holds the background.
    proof {
        assert(all[s as int].take(i as int) =~= all[s as int]);
        assert forall|x2: int, y2: int| 0 <= x2 < width && 0 <= y2 < height implies (#[trigger] data@[spec_at(
            width as int,
            x2,
            y2,
        )]).color == if y2 < spec_band_y(all, s + 1) - 2 {
            spec_plate_pixel(all, background, divider, padding, x2, y2)
        } else {
            background
        } by {
            if y2 < spec_band_y(all, s + 1) - 2 && !spec_painted(all, s as int, i as int, 0, 0, x2, y2) {
                lemma_max_height_nonneg(all[s as int]);
                assert forall|j: int| 0 <= j < all[s as int].len() implies !spec_covers(all, s as int, j, x2, y2) by {
                    lemma_image_order(all[s as int], j, i as int);
                    lemma_max_height_bound(all[s as int], j);
                }
                lemma_pixel_band_background(all, background, divider, padding, s as int, x2, y2);
            }
        }
    }
}

/// Paint the plate: the header and the bands, on the background.
fn paint_plate(
    sequences: &Vec<Vec<Image>>,
    heights: &Vec<usize>,
    width: usize,
    height: usize,
    background: u32,
    divider: u32,
    padding: Option<u32>,
) -> (r: Vec<ColorARGBInt>)
    requires
        spec_paint_inputs(spec_sequences(sequences), width as int, height as int),
        heights@.len() == sequences@.len(),
        forall|s: int| 0 <= s < heights@.len() ==> heights@[s] == spec_band_height(#[trigger] spec_sequences(sequences)[s]),
    ensures
        r@.len() == width * height,
        forall|x: int, y: int|
            0 <= x < width && 0 <= y < height ==> (#[trigger] r@[spec_at(width as int, x, y)]).color == spec_plate_pixel(
                spec_sequences(sequences),
                background,
                divider,
                padding,
                x,
                y,
            ),
{
    let ghost all = spec_sequences(sequences);
    proof {
        lemma_plate_width_min(all);
        lemma_bands_height_nonneg(all);
        assert(height + 2 <= usize::MAX) by (nonlinear_arith)
            requires
                width * height <= usize::MAX,
                width >= 4,
        ;
    }
    let total = width * height;
    let mut data: Vec<ColorARGBInt> = Vec::new();
    while data.len() < total
        invariant
            data@.len() <= total,
            forall|k: int| 0 <= k < data@.len() ==> (#[trigger] data@[k]).color == background,
        decreases total - data@.len(),
    {
        data.push(ColorARGBInt { color: background });
    }
    assert(total >= 4) by (nonlinear_arith)
        requires
            total == width * height,
            width >= 4,
            height >= 1,
    ;
    // Bake the header for the color plate
    data.set(1, ColorARGBInt { color: divider });
    if let Some(p) = padding {
        data.set(2, ColorARGBInt { color: p });
    }
    proof {
        assert(spec_band_y(all, 0) == 3) by {
            assert(all.take(0) =~= Seq::<Seq<Image>>::empty());
        }
        assert forall|x: int, y: int| 0 <= x < width && 0 <= y < height implies (#[trigger] data@[spec_at(
            width as int,
            x,
            y,
        )]).color == if y < spec_band_y(all, 0) - 2 {
            spec_plate_pixel(all, background, divider, padding, x, y)
        } else {
            background
        } by {
            lemma_at_bounds(width as int, height as int, x, y);
            if y == 0 {
                lemma_pixel_header(all, background, divider, padding, x);
            } else {
                assert(y * width >= width) by (nonlinear_arith)
                    requires
                        y >= 1,
                        width >= 0,
                ;
            }
        }
    }
    let mut top: usize = 3;
    let mut s: usize = 0;
    while s < sequences.len()
        invariant
            spec_paint_inputs(all, width as int, height as int),
            all == spec_sequences(sequences),
            heights@.len() == all.len(),
            forall|t: int| 0 <= t < heights@.len() ==> heights@[t] == spec_band_height(#[trigger] all[t]),
            height + 2 <= usize::MAX,
            s <= all.len(),
            top == spec_band_y(all, s as int),
            spec_plate_state(
                data@,
                all,
                width as int,
                height as int,
                background,
                divider,
                padding,
                |x: int, y: int| y < spec_band_y(all, s as int) - 2,
            ),
        decreases all.len() - s,
    {
        paint_band(&mut data, sequences, s, top, width, height, background, divider, padding);
        proof {
            lemma_band_step(all, s as int);
            lemma_bands_height_prefix(all, s + 1);
        }
        top = top + heights[s];
        s = s + 1;
    }
    proof {
        assert(all.take(s as int) =~= all);
    }
    data
}

/// The background color: blue, unless an image or the padding uses it; then the first color, going from white to
/// black, that neither an image, the padding nor the default divider uses.
pub open spec fn spec_plate_background(colors: Set<u32>, padding: Option<u32>) -> Option<u32> {
    if padding == Some(0xFF0000FFu32) || colors.contains(0xFF0000FFu32) {
        spec_first_available(colors, (padding, Some(0xFFFF00FFu32)), true)
    } else {
        Some(0xFF0000FFu32)
    }
}

/// The sequence divider color: magenta, unless an image or the padding uses it; then the first color, going from
/// black to white, that neither an image, the padding nor the background uses.
pub open spec fn spec_plate_divider(colors: Set<u32>, padding: Option<u32>, background: u32) -> Option<u32> {
    if padding == Some(0xFFFF00FFu32) || colors.contains(0xFFFF00FFu32) {
        spec_first_available(colors, (padding, Some(background)), false)
    } else {
        Some(0xFFFF00FFu32)
    }
}

/// The first available color is available.
proof fn lemma_first_available_is_available(colors: Set<u32>, excluding: (Option<u32>, Option<u32>), white_to_black: bool)
    ensures
        spec_first_available(colors, excluding, white_to_black) matches Some(c) ==> spec_available(colors, excluding, c),
{
    if exists|n: int| 0 <= n < 0x1000000 && spec_available(colors, excluding, #[trigger] spec_candidate(n, white_to_black)) {
        let w = choose|n: int| 0 <= n < 0x1000000 && spec_available(colors, excluding, #[trigger] spec_candidate(n, white_to_black));
        lemma_first_candidate(colors, excluding, white_to_black, w);
    }
}

/// Where some candidate up to `w` is available, there is a first one.
proof fn lemma_first_candidate(colors: Set<u32>, excluding: (Option<u32>, Option<u32>), white_to_black: bool, w: int)
    requires
        0 <= w < 0x1000000,
        spec_available(colors, excluding, spec_candidate(w, white_to_black)),
    ensures
        exists|n: int|
            0 <= n < 0x1000000 && spec_available(colors, excluding, #[trigger] spec_candidate(n, white_to_black)) && forall|
                m: int,
            | 0 <= m < n ==> !spec_available(colors, excluding, #[trigger] spec_candidate(m, white_to_black)),
    decreases w,
{
    if exists|m: int| 0 <= m < w && spec_available(colors, excluding, #[trigger] spec_candidate(m, white_to_black)) {
        let m = choose|m: int| 0 <= m < w && spec_available(colors, excluding, #[trigger] spec_candidate(m, white_to_black));
        lemma_first_candidate(colors, excluding, white_to_black, m);
    } else {
        assert(0 <= w < 0x1000000 && spec_available(colors, excluding, spec_candidate(w, white_to_black)) && forall|m: int|
            0 <= m < w ==> !spec_available(colors, excluding, #[trigger] spec_candidate(m, white_to_black)));
    }
}

/// Law: the background and sequence divider colors of a plate are told apart from everything else on it: the
/// background is neither an image color (made opaque) nor the padding color, and the divider is neither an image color,
/// the padding color nor the background.
pub proof fn law_plate_marker_colors_distinct(colors: Set<u32>, padding: Option<u32>)
    ensures
        spec_plate_background(colors, padding) matches Some(b) ==> {
            &&& !colors.contains(b)
            &&& padding != Some(b)
            &&& spec_plate_divider(colors, padding, b) matches Some(d) ==> !colors.contains(d) && padding != Some(d) && d != b
        },
{
    lemma_first_available_is_available(colors, (padding, Some(0xFFFF00FFu32)), true);
    if let Some(b) = spec_plate_background(colors, padding) {
        lemma_first_available_is_available(colors, (padding, Some(b)), false);
    }
}

/// The packed padding color, if any.
pub open spec fn spec_padding_color(padding: Option<ColorARGBInt>) -> Option<u32> {
    match padding {
        Some(p) => Some(p.color),
        None => None,
    }
}

/// `a` is `Some(b)`.
fn is_color(a: Option<u32>, b: u32) -> (r: bool)
    ensures
        r == (a == Some(b)),
{
    match a {
        Some(c) => c == b,
        None => false,
    }
}

/// Lay out the images of a loose color plate, sequence by sequence, on one image, with the padding color if one is
/// given.
///
/// Fails with [`Error::SizeLimitExceeded`] where the plate's size cannot be computed in a `usize`, and with
/// [`Error::Other`] where no color is left for the background or the divider.
pub fn make_color_plate(padding: Option<ColorARGBInt>, sequences: &Vec<Vec<Image>>) -> (r: RinghopperResult<Image>)
    requires
        forall|s: int, i: int|
            0 <= s < sequences@.len() && 0 <= i < sequences@[s]@.len() ==> #[trigger] sequences@[s]@[i].data@.len()
                >= sequences@[s]@[i].width * sequences@[s]@[i].height,
    ensures
        ({
            let all = spec_sequences(sequences);
            let colors = spec_plate_colors(all);
            let pad = spec_padding_color(padding);
            if !spec_layout_fits(all) {
                r == Err::<Image, Error>(Error::SizeLimitExceeded)
            } else {
                match spec_plate_background(colors, pad) {
                    None => r matches Err(Error::Other(m)) && m@
                        == "cannot find background color to use: full 8-bit RGB spectrum is exhausted"@,
                    Some(background) => match spec_plate_divider(colors, pad, background) {
                        None => r matches Err(Error::Other(m)) && m@
                            == "cannot find sequence divider color to use: full 8-bit RGB spectrum is exhausted"@,
                        Some(divider) => {
                            let width = spec_plate_width(all);
                            let height = spec_plate_height(all);
                            if width * height > usize::MAX {
                                r == Err::<Image, Error>(Error::SizeLimitExceeded)
                            } else {
                                r matches Ok(plate) && plate.width == width && plate.height == height
                                    && plate.data@.len() == width * height && forall|x: int, y: int|
                                    0 <= x < width && 0 <= y < height ==> (#[trigger] plate.data@[spec_at(width, x, y)]).color
                                        == spec_plate_pixel(all, background, divider, pad, x, y)
                            }
                        },
                    },
                }
            }
        }),
{
    let ghost all = spec_sequences(sequences);
    let (width, height, heights) = match plate_layout(sequences) {
        Ok(l) => l,
        Err(e) => return Err(e),
    };
    let all_pixels = plate_colors(sequences);
    let pad = match padding {
        Some(p) => Some(p.color),
        None => None,
    };
    let mut background: u32 = 0xFF0000FF;
    let mut sequence_divider: u32 = 0xFFFF00FF;
    broadcast use vstd::std_specs::hash::group_hash_axioms;
    if is_color(pad, background) || all_pixels.contains(&background) {
        background = match find_first_available_pixel(&all_pixels, (pad, Some(sequence_divider)), true) {
            Some(n) => n,
            None => {
                return Err(
                    Error::Other("cannot find background color to use: full 8-bit RGB spectrum is exhausted".to_owned()),
                )
            },
        };
    }
    if is_color(pad, sequence_divider) || all_pixels.contains(&sequence_divider) {
        sequence_divider = match find_first_available_pixel(&all_pixels, (pad, Some(background)), false) {
            Some(n) => n,
            None => {
                return Err(
                    Error::Other(
                        "cannot find sequence divider color to use: full 8-bit RGB spectrum is exhausted".to_owned(),
                    ),
                )
            },
        };
    }
    let total = match width.checked_mul(height) {
        Some(t) => t,
        None => return Err(Error::SizeLimitExceeded),
    };
    proof {
        assert forall|s: int, i: int|
            0 <= s < all.len() && 0 <= i < all[s].len() implies #[trigger] all[s][i].data@.len() >= all[s][i].width
            * all[s][i].height by {
            assert(all[s][i] == sequences@[s]@[i]);
        }
    }
    let data = paint_plate(sequences, &heights, width, height, background, sequence_divider, pad);
    Ok(Image { width, height, data })
}

/// `c` has the Unicode `White_Space` property.
pub open spec fn spec_is_whitespace(c: char) -> bool {
    let v = c as u32;
    ||| 0x9 <= v <= 0xD
    ||| v == 0x20
    ||| v == 0x85
    ||| v == 0xA0
    ||| v == 0x1680
    ||| 0x2000 <= v <= 0x200A
    ||| v == 0x2028
    ||| v == 0x2029
    ||| v == 0x202F
    ||| v == 0x205F
    ||| v == 0x3000
}

/// `s` without its leading whitespace.
pub open spec fn spec_trim_start(s: Seq<char>) -> Seq<char>
    decreases s.len(),
{
    if s.len() > 0 && spec_is_whitespace(s[0]) {
        spec_trim_start(s.drop_first())
    } else {
        s
    }
}

/// `s` without its trailing whitespace.
pub open spec fn spec_trim_end(s: Seq<char>) -> Seq<char>
    decreases s.len(),
{
    if s.len() > 0 && spec_is_whitespace(s.last()) {
        spec_trim_end(s.drop_last())
    } else {
        s
    }
}

/// `s` without its leading and trailing whitespace.
pub open spec fn spec_trim(s: Seq<char>) -> Seq<char> {
    spec_trim_end(spec_trim_start(s))
}

/// The number of bytes that UTF-8 takes for `c`.
pub open spec fn spec_char_len(c: char) -> nat {
    let v = c as u32;
    if v < 0x80 {
        1
    } else if v < 0x800 {
        2
    } else if v < 0x10000 {
        3
    } else {
        4
    }
}

/// The number of bytes that UTF-8 takes for `s`.
pub open spec fn spec_utf8_len(s: Seq<char>) -> nat
    decreases s.len(),
{
    if s.len() == 0 {
        0
    } else {
        spec_utf8_len(s.drop_last()) + spec_char_len(s.last())
    }
}

/// `c` is an ASCII hexadecimal digit.
pub open spec fn spec_is_hex_digit(c: char) -> bool {
    ('0' <= c <= '9') || ('a' <= c <= 'f') || ('A' <= c <= 'F')
}

/// The value of an ASCII hexadecimal digit.
pub open spec fn spec_hex_value(c: char) -> int {
    if '0' <= c <= '9' {
        c as int - '0' as int
    } else if 'a' <= c <= 'f' {
        c as int - 'a' as int + 10
    } else {
        c as int - 'A' as int + 10
    }
}

/// The text of a padding file: its characters without leading and trailing whitespace.
pub open spec fn spec_padding_text(data: Seq<u8>) -> Seq<char> {
    spec_trim(decode_utf8(data))
}

/// A padding file can be read without a panic: the text starts with an ASCII character, and where it is `#` and
/// three or six bytes follow, those are ASCII.
pub open spec fn spec_padding_readable(data: Seq<u8>) -> bool {
    let t = spec_padding_text(data);
    valid_utf8(data) && t.len() > 0 ==> {
        &&& (t[0] as u32) < 0x80
        &&& t[0] == '#' && (spec_utf8_len(t.drop_first()) == 3 || spec_utf8_len(t.drop_first()) == 6) ==> forall|i: int|
            0 <= i < t.len() - 1 ==> (#[trigger] t.drop_first()[i] as u32) < 0x80
    }
}

/// The six digits of a color written `RRGGBB` or `RGB`.
pub open spec fn spec_padding_digits(color: Seq<char>) -> Seq<char> {
    if color.len() == 3 {
        seq![color[0], color[0], color[1], color[1], color[2], color[2]]
    } else {
        color
    }
}

/// Reading the padding file called `name`: the opaque color written `#RRGGBB` or `#RGB` in hexadecimal digits, with
/// whitespace around it; or the error message.
pub open spec fn spec_parse_padding(name: Seq<char>, data: Seq<u8>) -> Result<u32, Seq<char>> {
    if !valid_utf8(data) {
        Err(name + " is not valid UTF-8"@)
    } else {
        let t = spec_padding_text(data);
        if t.len() == 0 {
            Err(name + " is empty"@)
        } else {
            let color = t.drop_first();
            let n = spec_utf8_len(color);
            if t[0] != '#' || (n != 6 && n != 3) {
                Err(name + " is not in the format #RRGGBB or #RGB"@)
            } else {
                let d = spec_padding_digits(color);
                if exists|i: int| 0 <= i < 6 && !spec_is_hex_digit(#[trigger] d[i]) {
                    Err(name + " contains non-hexadecimal characters"@)
                } else {
                    Ok(
                        spec_pack_argb(
                            255,
                            (spec_hex_value(d[0]) * 16 + spec_hex_value(d[1])) as u8,
                            (spec_hex_value(d[2]) * 16 + spec_hex_value(d[3])) as u8,
                            (spec_hex_value(d[4]) * 16 + spec_hex_value(d[5])) as u8,
                        ),
                    )
                }
            }
        }
    }
}

/// `c` has the Unicode `White_Space` property.
fn is_whitespace(c: char) -> (r: bool)
    ensures
        r == spec_is_whitespace(c),
{
    let v = c as u32;
    (0x9 <= v && v <= 0xD) || v == 0x20 || v == 0x85 || v == 0xA0 || v == 0x1680 || (0x2000 <= v && v <= 0x200A)
        || v == 0x2028 || v == 0x2029 || v == 0x202F || v == 0x205F || v == 0x3000
}

/// The bounds of `chars` without its leading and trailing whitespace.
fn trim_bounds(chars: &[char]) -> (r: (usize, usize))
    ensures
        r.0 <= r.1 <= chars@.len(),
        chars@.subrange(r.0 as int, r.1 as int) == spec_trim(chars@),
{
    let n = chars.len();
    let mut start: usize = 0;
    assert(chars@.subrange(0, n as int) =~= chars@);
    while start < n && is_whitespace(chars[start])
        invariant
            start <= n,
            n == chars@.len(),
            spec_trim_start(chars@) == spec_trim_start(chars@.subrange(start as int, n as int)),
        decreases n - start,
    {
        assert(chars@.subrange(start as int, n as int).drop_first() =~= chars@.subrange(start + 1, n as int));
        start = start + 1;
    }
    let mut end: usize = n;
    while end > start && is_whitespace(chars[end - 1])
        invariant
            start <= end <= n,
            n == chars@.len(),
            spec_trim(chars@) == spec_trim_end(chars@.subrange(start as int, end as int)),
        decreases end - start,
    {
        assert(chars@.subrange(start as int, end as int).drop_last() =~= chars@.subrange(start as int, end - 1));
        end = end - 1;
    }
    (start, end)
}

/// The number of bytes that UTF-8 takes for `chars`.
fn utf8_len(chars: &[char]) -> (r: usize)
    requires
        spec_utf8_len(chars@) <= usize::MAX,
    ensures
        r == spec_utf8_len(chars@),
{
    let mut total: usize = 0;
    let mut i: usize = 0;
    while i < chars.len()
        invariant
            i <= chars@.len(),
            total == spec_utf8_len(chars@.take(i as int)),
            spec_utf8_len(chars@) <= usize::MAX,
        decreases chars@.len() - i,
    {
        assert(chars@.take(i + 1).drop_last() =~= chars@.take(i as int));
        proof {
            lemma_utf8_len_prefix(chars@, i + 1);
        }
        let v = chars[i] as u32;
        let l: usize = if v < 0x80 {
            1
        } else if v < 0x800 {
            2
        } else if v < 0x10000 {
            3
        } else {
            4
        };
        total = total + l;
        i = i + 1;
    }
    assert(chars@.take(i as int) =~= chars@);
    total
}

/// A prefix takes no more bytes than the whole.
proof fn lemma_utf8_len_prefix(s: Seq<char>, i: int)
    requires
        0 <= i <= s.len(),
    ensures
        spec_utf8_len(s.take(i)) <= spec_utf8_len(s),
    decreases s.len(),
{
    if i < s.len() {
        assert(s.drop_last().take(i) =~= s.take(i));
        lemma_utf8_len_prefix(s.drop_last(), i);
    } else {
        assert(s.take(i) =~= s);
    }
}

/// An ASCII sequence takes one byte per character.
proof fn lemma_utf8_len_ascii(s: Seq<char>)
    requires
        forall|i: int| 0 <= i < s.len() ==> (#[trigger] s[i] as u32) < 0x80,
    ensures
        spec_utf8_len(s) == s.len(),
    decreases s.len(),
{
    if s.len() > 0 {
        lemma_utf8_len_ascii(s.drop_last());
    }
}

/// Each character takes at least a byte.
proof fn lemma_utf8_len_min(s: Seq<char>)
    ensures
        spec_utf8_len(s) >= s.len(),
        spec_utf8_len(s) <= 4 * s.len(),
    decreases s.len(),
{
    if s.len() > 0 {
        lemma_utf8_len_min(s.drop_last());
    }
}

/// The value of an ASCII hexadecimal digit.
fn hex_value(c: char) -> (r: u8)
    requires
        spec_is_hex_digit(c),
    ensures
        r == spec_hex_value(c),
{
    let v = c as u32;
    if v <= 0x39 {
        (v - 0x30) as u8
    } else if v <= 0x46 {
        (v - 0x41 + 10) as u8
    } else {
        (v - 0x61 + 10) as u8
    }
}

/// `c` is an ASCII hexadecimal digit.
fn is_hex_digit(c: char) -> (r: bool)
    ensures
        r == spec_is_hex_digit(c),
{
    ('0' <= c && c <= '9') || ('a' <= c && c <= 'f') || ('A' <= c && c <= 'F')
}

/// `name` followed by `suffix`.
fn message(name: &str, suffix: &str) -> (r: String)
    ensures
        r@ == name@ + suffix@,
{
    let mut m = name.to_owned();
    m.append(suffix);
    m
}

/// Whether a padding file can be read without a panic; see [`spec_padding_readable`].
pub fn padding_file_readable(data: &[u8]) -> (r: bool)
    ensures
        r == spec_padding_readable(data@),
{
    let text = match str_from_utf8(data) {
        Some(t) => t,
        None => return true,
    };
    proof {
        vstd::utf8::encode_utf8_decode_utf8(text@);
    }
    let chars = chars_of(text);
    let (start, end) = trim_bounds(chars.as_slice());
    let ghost t = spec_padding_text(data@);
    assert(chars@.subrange(start as int, end as int) == t);
    if start == end {
        return true;
    }
    if chars[start] as u32 >= 0x80 {
        return false;
    }
    if chars[start] != '#' {
        return true;
    }
    let color = vstd::slice::slice_subrange(chars.as_slice(), start + 1, end);
    assert(color@ =~= t.drop_first());
    let mut ascii = true;
    let mut i: usize = 0;
    while i < color.len()
        invariant
            i <= color@.len(),
            ascii == forall|j: int| 0 <= j < i ==> (#[trigger] color@[j] as u32) < 0x80,
        decreases color@.len() - i,
    {
        if color[i] as u32 >= 0x80 {
            ascii = false;
        }
        i = i + 1;
    }
    if ascii {
        return true;
    }
    // A non-ASCII character takes at least two bytes, so the bytes are at least one more than the characters.
    proof {
        lemma_utf8_len_min(color@);
    }
    if color.len() > 6 {
        return true;
    }
    let n = utf8_len(color);
    !(n == 3 || n == 6)
}

/// Read the padding color from the contents of the padding file called `name`.
///
/// The color is written `#RRGGBB` or `#RGB` in hexadecimal digits, with whitespace around it, and is opaque. Fails
/// with [`Error::Other`], naming the file, where the file is not UTF-8, is empty, is not in that format or holds
/// characters that are not hexadecimal digits.
pub fn parse_padding_color(name: &str, data: &[u8]) -> (r: RinghopperResult<ColorARGBInt>)
    requires
        spec_padding_readable(data@),
    ensures
        match spec_parse_padding(name@, data@) {
            Ok(c) => r == Ok::<ColorARGBInt, Error>(ColorARGBInt { color: c }),
            Err(m) => r matches Err(Error::Other(s)) && s@ == m,
        },
{
    let text = match str_from_utf8(data) {
        Some(t) => t,
        None => return Err(Error::Other(message(name, " is not valid UTF-8"))),
    };
    proof {
        vstd::utf8::encode_utf8_decode_utf8(text@);
    }
    let chars = chars_of(text);
    let (start, end) = trim_bounds(chars.as_slice());
    let ghost t = spec_padding_text(data@);
    assert(chars@.subrange(start as int, end as int) == t);
    if start == end {
        return Err(Error::Other(message(name, " is empty")));
    }
    let color = vstd::slice::slice_subrange(chars.as_slice(), start + 1, end);
    assert(color@ =~= t.drop_first());
    let bad_format = message(name, " is not in the format #RRGGBB or #RGB");
    proof {
        lemma_utf8_len_min(color@);
    }
    if chars[start] != '#' || color.len() > 6 {
        return Err(Error::Other(bad_format));
    }
    let n = utf8_len(color);
    if n != 6 && n != 3 {
        return Err(Error::Other(bad_format));
    }
    proof {
        lemma_utf8_len_ascii(color@);
    }
    let digits: [char; 6] = if n == 3 {
        [color[0], color[0], color[1], color[1], color[2], color[2]]
    } else {
        [color[0], color[1], color[2], color[3], color[4], color[5]]
    };
    let ghost d = spec_padding_digits(color@);
    assert(digits@ =~= d);
    let mut i: usize = 0;
    while i < 6
        invariant
            i <= 6,
            digits@ == d,
            d.len() == 6,
            forall|j: int| 0 <= j < i ==> spec_is_hex_digit(#[trigger] d[j]),
            valid_utf8(data@),
            t == spec_padding_text(data@),
            t.len() > 0,
            t[0] == '#',
            n == spec_utf8_len(t.drop_first()),
            n == 3 || n == 6,
            d == spec_padding_digits(t.drop_first()),
        decreases 6 - i,
    {
        if !is_hex_digit(digits[i]) {
            assert(!spec_is_hex_digit(d[i as int]));
            return Err(Error::Other(message(name, " contains non-hexadecimal characters")));
        }
        i = i + 1;
    }
    let red = hex_value(digits[0]) * 16 + hex_value(digits[1]);
    let green = hex_value(digits[2]) * 16 + hex_value(digits[3]);
    let blue = hex_value(digits[4]) * 16 + hex_value(digits[5]);
    Ok(ColorARGBInt::from(ColorARGBIntBytes { alpha: 255, red, green, blue }))
}

/// Where an iteration over a loose color plate stands.
#[derive(PartialEq, Eq, Structural, Debug, Clone, Copy)]
pub struct LoosePlatePosition {
    /// The sequence of the next bitmap to look for.
    pub sequence: u16,

    /// The next bitmap to look for in that sequence.
    pub bitmap: u16,

    /// No more bitmaps will be looked for.
    pub done: bool,

    /// The bitmap looked for is the first of a sequence, after one was missing from the sequence before it.
    pub retrying: bool,
}

/// What to do after looking for a bitmap of a loose color plate.
#[derive(PartialEq, Eq, Structural, Debug, Clone, Copy)]
pub enum LoosePlateStep {
    /// The bitmap of this sequence and index was found: it is the next one.
    Found(u16, u16),

    /// Look for the bitmap of this sequence and index.
    Probe(u16, u16),

    /// There are no more bitmaps.
    Finished,
}

/// Iterator for loose color plates.
///
/// Loose color plates are stored where each bitmap is a separate image file, with the name format of
/// `s<sequence>_<bitmap>`. The iterator decides which file to look for; whoever drives it looks for the file and
/// tells it whether the file was found.
///
/// Empty sequences are not allowed in this format; the iterator will immediately end if it runs into a sequence that
/// doesn't exist.
///
/// Additionally, only 65536 sequences are allowed, as well as 65536 bitmaps per sequence.
pub struct LooseColorPlateIterator {
    position: LoosePlatePosition,
}

impl View for LooseColorPlateIterator {
    type V = LoosePlatePosition;

    closed spec fn view(&self) -> LoosePlatePosition {
        self.position
    }
}

/// The position after a bitmap was found: the next bitmap of the sequence; after the last possible bitmap, the first
/// of the next sequence; after the last possible sequence, none.
pub open spec fn spec_after_found(p: LoosePlatePosition) -> LoosePlatePosition {
    if p.bitmap == u16::MAX {
        if p.sequence == u16::MAX {
            LoosePlatePosition { done: true, retrying: false, ..p }
        } else {
            LoosePlatePosition { sequence: (p.sequence + 1) as u16, bitmap: 0, done: false, retrying: false }
        }
    } else {
        LoosePlatePosition { bitmap: (p.bitmap + 1) as u16, retrying: false, ..p }
    }
}

/// One step of the iteration: the position after learning whether the bitmap looked for was found, and what to do.
///
/// A missing bitmap ends its sequence, and the first bitmap of the next sequence is looked for; where that one is
/// missing too, the iteration ends.
pub open spec fn spec_plate_step(p: LoosePlatePosition, found: bool) -> (LoosePlatePosition, LoosePlateStep) {
    if p.done {
        (p, LoosePlateStep::Finished)
    } else if found {
        (spec_after_found(p), LoosePlateStep::Found(p.sequence, p.bitmap))
    } else if p.retrying || p.sequence == u16::MAX {
        (LoosePlatePosition { done: true, retrying: false, ..p }, LoosePlateStep::Finished)
    } else {
        let next = (p.sequence + 1) as u16;
        (
            LoosePlatePosition { sequence: next, bitmap: 0, done: false, retrying: true },
            LoosePlateStep::Probe(next, 0),
        )
    }
}

impl LooseColorPlateIterator {
    /// Iterate on a directory, given whether it is one.
    ///
    /// Returns `None` if it is not a directory.
    pub fn interate_on(is_directory: bool) -> (r: Option<LooseColorPlateIterator>)
        ensures
            is_directory <==> r is Some,
            r matches Some(it) ==> it@ == (LoosePlatePosition { sequence: 0, bitmap: 0, done: false, retrying: false }),
    {
        if !is_directory {
            return None;
        }
        Some(LooseColorPlateIterator { position: LoosePlatePosition { sequence: 0, bitmap: 0, done: false, retrying: false } })
    }

    /// Start looking for the next bitmap: the sequence and index of the file to look for, or `None` where there are no
    /// more bitmaps.
    pub fn next_probe(&mut self) -> (r: Option<(u16, u16)>)
        ensures
            old(self)@.done ==> r is None && final(self)@ == old(self)@,
            !old(self)@.done ==> r == Some((old(self)@.sequence, old(self)@.bitmap)) && final(self)@ == (
            LoosePlatePosition { retrying: false, ..old(self)@ }),
    {
        if self.position.done {
            return None;
        }
        self.position.retrying = false;
        Some((self.position.sequence, self.position.bitmap))
    }

    /// Tell the iterator whether the file it asked for was found; it says what to do next.
    pub fn probed(&mut self, found: bool) -> (r: LoosePlateStep)
        ensures
            (final(self)@, r) == spec_plate_step(old(self)@, found),
    {
        let p = self.position;
        if p.done {
            return LoosePlateStep::Finished;
        }
        if found {
            if p.bitmap == u16::MAX {
                if p.sequence == u16::MAX {
                    self.position.done = true;
                    self.position.retrying = false;
                } else {
                    self.position = LoosePlatePosition { sequence: p.sequence + 1, bitmap: 0, done: false, retrying: false };
                }
            } else {
                self.position.bitmap = p.bitmap + 1;
                self.position.retrying = false;
            }
            return LoosePlateStep::Found(p.sequence, p.bitmap);
        }
        if p.retrying || p.sequence == u16::MAX {
            self.position.done = true;
            self.position.retrying = false;
            return LoosePlateStep::Finished;
        }
        let next = p.sequence + 1;
        self.position = LoosePlatePosition { sequence: next, bitmap: 0, done: false, retrying: true };
        LoosePlateStep::Probe(next, 0)
    }
}

/// The iteration only moves forward: a bitmap that is found comes before every bitmap looked for after it, and once
/// finished, the iteration stays finished.
pub proof fn law_plate_iteration_forward(p: LoosePlatePosition, found: bool)
    ensures
        ({
            let (q, step) = spec_plate_step(p, found);
            &&& step matches LoosePlateStep::Found(s, b) ==> q.done || s < q.sequence || (s == q.sequence && b < q.bitmap)
            &&& step matches LoosePlateStep::Probe(s, b) ==> p.sequence < s && b == 0 && q.sequence == s && q.bitmap == b
            &&& step is Finished ==> q.done && spec_plate_step(q, found).1 is Finished
        }),
{
}

} // verus!
