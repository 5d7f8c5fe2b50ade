//! The pictures in screenshot files: pixels to show, previews, and QR codes.
//!
//! An `image::DynamicImage` is opaque here. What it holds is the [`Image`] that
//! [`image_of`] gives; each wrapper below says what one call of `image` does to it.

use vstd::prelude::*;
use vstd::utf8::{decode_utf8, valid_utf8};
use crate::text::utf8_text;

verus! {

/// A picture as rows of RGBA pixels.
pub struct Picture {
    pub width: u32,
    pub height: u32,
    pub rgba: Vec<u8>,
}

/// A picture as rows of grey levels.
pub struct Grey {
    pub width: u32,
    pub height: u32,
    pub levels: Vec<u8>,
}

/// Why a screenshot file gives no picture.
pub enum PictureError {
    /// The file is no PNG that can be decoded; why, in words.
    Undecodable(String),
    /// The pixels are more than can be held.
    TooLarge,
}

/// How a search for QR codes in a screenshot ended.
pub enum QrSearch {
    /// The picture could not be opened.
    Unopened,
    /// The search broke off.
    Unfinished,
    /// For each code that was found, in order, its text, or nothing where it could not be
    /// decoded.
    Codes(Vec<Option<String>>),
}

impl View for Picture {
    type V = (u32, u32, Seq<u8>);

    open spec fn view(&self) -> (u32, u32, Seq<u8>) {
        (self.width, self.height, self.rgba@)
    }
}

impl Picture {
    /// Neither side is empty, and there are four bytes for each pixel.
    pub open spec fn wf(&self) -> bool {
        self.width > 0 && self.height > 0 && self.rgba@.len() == 4 * (self.width * self.height)
    }
}

impl PictureError {
    /// What to tell of the error.
    pub fn message(self) -> (r: String)
        ensures
            r@ == match self {
                PictureError::Undecodable(why) => why@,
                PictureError::TooLarge => "picture too large"@,
            },
    {
        match self {
            PictureError::Undecodable(why) => why,
            PictureError::TooLarge => String::from_str("picture too large"),
        }
    }
}

// ---------------------------------------------------------------------------
// Decoded images
// ---------------------------------------------------------------------------

/// What a decoded image holds: for each pixel, row by row, one sample for each channel
/// (grey; grey and alpha; red, green and blue; or these and alpha), of 16 bits where it is
/// `deep` and of 8 bits where not.
pub struct Image {
    pub width: u32,
    pub height: u32,
    pub channels: u8,
    pub deep: bool,
    pub samples: Seq<u16>,
}

impl Image {
    /// Neither side is empty, and there is a sample for each channel of each pixel.
    pub open spec fn wf(self) -> bool {
        self.width > 0 && self.height > 0 && 1 <= self.channels <= 4 && self.samples.len()
            == self.channels * (self.width * self.height)
    }

    /// How many bytes the samples of a pixel take.
    pub open spec fn pixel_bytes(self) -> int {
        if self.deep {
            2 * self.channels
        } else {
            self.channels as int
        }
    }

    /// The samples take no more bytes than are set aside for a file that is decoded.
    pub open spec fn moderate(self) -> bool {
        self.pixel_bytes() * (self.width * self.height) <= 0x2000_0000
    }
}

#[verifier::external_type_specification]
#[verifier::external_body]
pub struct ExDynamicImage(image::DynamicImage);

/// What an `image::DynamicImage` of integer samples holds.
pub uninterp spec fn image_of(img: image::DynamicImage) -> Image;

/// What `image::load_from_memory_with_format` makes of the bytes of a PNG: the image, or
/// the text of its error.
pub uninterp spec fn png_image(bytes: Seq<u8>) -> Result<Image, Seq<char>>;

/// The preview that `image::DynamicImage::thumbnail` makes of an image, for a square of
/// `max` pixels.
pub uninterp spec fn thumbnail_of(i: Image, max: u32) -> Image;

/// The sample at `k` as an 8-bit level: the nearest, where it has 16 bits.
pub open spec fn level(i: Image, k: int) -> u8 {
    if i.deep {
        ((i.samples[k] + 128) / 257) as u8
    } else {
        i.samples[k] as u8
    }
}

/// The byte at `k` of the RGBA pixels: grey stands for all three colours, and an image
/// without alpha is opaque.
pub open spec fn rgba_byte(i: Image, k: int) -> u8 {
    let start = k / 4 * i.channels;
    if k % 4 < 3 {
        level(
            i,
            if i.channels <= 2 {
                start
            } else {
                start + k % 4
            },
        )
    } else if i.channels == 2 || i.channels == 4 {
        level(i, start + i.channels - 1)
    } else {
        255
    }
}

/// The RGBA pixels of an image.
pub open spec fn rgba_of(i: Image) -> Seq<u8> {
    Seq::new((4 * (i.width * i.height)) as nat, |k: int| rgba_byte(i, k))
}

/// The sides and the RGBA pixels of an image.
pub open spec fn picture_of(i: Image) -> (u32, u32, Seq<u8>) {
    (i.width, i.height, rgba_of(i))
}

/// The brightness of the pixel at `k`, in ten-thousandths of a sample step: its grey, or red,
/// green and blue weighted as in BT.709.
pub open spec fn brightness(i: Image, k: int) -> int {
    let start = k * i.channels;
    if i.channels <= 2 {
        10_000 * i.samples[start]
    } else {
        2_126 * i.samples[start] + 7_152 * i.samples[start + 1] + 722 * i.samples[start + 2]
    }
}

/// Whether `grey` is the level of a brightness on a scale of 255, up to six tenths of a level.
pub open spec fn near_level(grey: u8, brightness: int, deep: bool) -> bool {
    let step = if deep {
        2_570_000int
    } else {
        10_000int
    };
    -6 * step <= 10 * (grey * step - brightness) <= 6 * step
}

/// Whether `levels` are the grey levels of an image, one for each pixel.
pub open spec fn greys(levels: Seq<u8>, i: Image) -> bool {
    levels.len() == i.width * i.height && forall|k: int|
        0 <= k < levels.len() ==> near_level(#[trigger] levels[k], brightness(i, k), i.deep)
}

/// The longer side.
pub open spec fn long_side(i: Image) -> int {
    if i.width >= i.height {
        i.width as int
    } else {
        i.height as int
    }
}

/// The shorter side.
pub open spec fn short_side(i: Image) -> int {
    if i.width >= i.height {
        i.height as int
    } else {
        i.width as int
    }
}

/// The longer side of a preview for a square of `max` pixels.
pub open spec fn preview_long(max: u32) -> int {
    if max == 0 {
        1
    } else {
        max as int
    }
}

/// Whether `short` is the shorter side of a preview: in proportion to the longer one up to
/// rounding, and at least one pixel.
pub open spec fn in_proportion(i: Image, short: int, max: u32) -> bool {
    1 <= short <= preview_long(max) && if max == 0 {
        short == 1
    } else {
        -long_side(i) < short * long_side(i) - max * short_side(i) < long_side(i)
    }
}

/// Whether a preview for a square of `max` pixels has these sides.
pub open spec fn preview_sides(i: Image, width: u32, height: u32, max: u32) -> bool {
    if i.width >= i.height {
        width == preview_long(max) && in_proportion(i, height as int, max)
    } else {
        height == preview_long(max) && in_proportion(i, width as int, max)
    }
}

/// Whether `short` is the shorter side of a preview to the nearest pixel (with a hundredth for
/// the precision of the division), or one pixel where that would be none.
pub open spec fn nearest_short(i: Image, short: int, max: u32) -> bool {
    1 <= short <= preview_long(max) && (-51 * long_side(i) <= 100 * (short * long_side(i) - max
        * short_side(i)) <= 51 * long_side(i) || (short == 1 && 100 * (max * short_side(i)) <= 51
        * long_side(i)))
}

/// At least how long the shorter side of a preview is.
pub open spec fn least_short(i: Image, max: u32) -> int {
    let whole = max * short_side(i) / long_side(i);
    if whole < 1 {
        1
    } else {
        whole
    }
}

/// At most how long the shorter side of a preview is.
pub open spec fn most_short(i: Image, max: u32) -> int {
    let nearest = (100 * (max * short_side(i)) + 51 * long_side(i)) / (100 * long_side(i));
    if nearest < 1 {
        1
    } else {
        nearest
    }
}

/// At most how many pixels of a side go into one of so many parts, where the bounds of the
/// parts are found with 24 bits of precision.
pub open spec fn loose_block(side: int, parts: int) -> int {
    let most = side / parts + side / 0x20_0000 + 2;
    if most < side {
        most
    } else {
        side
    }
}

/// At most how many pixels of a side go into one of `parts` parts: the quotient where the side
/// divides evenly and 24 bits hold it.
pub open spec fn block(side: int, parts: int) -> int {
    if side % parts == 0 && side <= 0x100_0000 {
        side / parts
    } else {
        loose_block(side, parts)
    }
}

/// At most how many pixels of the shorter side go into one pixel of a preview. How many parts
/// it has is known where the proportion divides evenly.
pub open spec fn short_block(i: Image, max: u32) -> int {
    if max > 0 && max * short_side(i) % long_side(i) == 0 {
        block(short_side(i), max * short_side(i) / long_side(i))
    } else {
        loose_block(short_side(i), least_short(i, max))
    }
}

/// At most how many pixels go into one pixel of a preview.
pub open spec fn area(i: Image, max: u32) -> int {
    block(long_side(i), preview_long(max)) * short_block(i, max)
}

/// The largest sample.
pub open spec fn top_sample(i: Image) -> int {
    if i.deep {
        0xffff
    } else {
        0xff
    }
}

/// Whether the sums of the samples that go into one pixel of a preview, and half as much as
/// there are of them for rounding, stay within 32 bits whatever the samples are.
pub open spec fn sums_fit(i: Image, max: u32) -> bool {
    area(i, max) * top_sample(i) + area(i, max) / 2 <= u32::MAX
}

/// Whether the samples of a preview, and its RGBA pixels, are no more than a `Vec` can hold.
pub open spec fn holds(i: Image, max: u32) -> bool {
    let pixels = preview_long(max) * most_short(i, max);
    i.pixel_bytes() * pixels <= isize::MAX && 4 * pixels <= isize::MAX
}

/// Whether `p` is a preview of `i` as one call makes it: of its kind, and in its proportion to
/// the nearest pixel.
pub open spec fn previews(p: Image, i: Image, max: u32) -> bool {
    &&& p.wf() && p.channels == i.channels && p.deep == i.deep
    &&& if i.width >= i.height {
        p.width == preview_long(max) && nearest_short(i, p.height as int, max)
    } else {
        p.height == preview_long(max) && nearest_short(i, p.width as int, max)
    }
}

/// The square for which an image is previewed first where the sums for `max` could be too
/// large: a sixty-fourth of its longer side, and at least sixteen times `max`.
pub open spec fn next_square(i: Image, max: u32) -> int {
    let part = (long_side(i) + 63) / 64;
    if part < 16 * preview_long(max) {
        16 * preview_long(max)
    } else {
        part
    }
}

/// The preview of an image for a square of `max` pixels: made at once where the sums stay
/// within 32 bits, and otherwise of a larger preview.
pub open spec fn preview_of(i: Image, max: u32) -> Image
    decreases long_side(i),
{
    if sums_fit(i, max) {
        thumbnail_of(i, max)
    } else {
        let larger = thumbnail_of(i, next_square(i, max) as u32);
        if long_side(larger) < long_side(i) {
            preview_of(larger, max)
        } else {
            larger
        }
    }
}

/// `image::load_from_memory_with_format` for PNG: the image in a file. The contract names the
/// outcome, which depends on the bytes alone, and claims that an image has no empty side (such
/// a PNG is refused), a sample for each of its one to four channels at each pixel, and samples
/// of at most 512 MiB (the limit at which decoding is refused). The error is handed on as its
/// text.
#[verifier::external_body]
fn open_png(bytes: &[u8]) -> (r: Result<image::DynamicImage, String>)
    ensures
        match r {
            Ok(img) => png_image(bytes@) == Ok::<Image, Seq<char>>(image_of(img)) && image_of(
                img,
            ).wf() && image_of(img).moderate(),
            Err(e) => png_image(bytes@) == Err::<Image, Seq<char>>(e@),
        },
{
    image::load_from_memory_with_format(bytes, image::ImageFormat::Png).map_err(|e| e.to_string())
}

/// `image::DynamicImage::width`.
#[verifier::external_body]
fn width_of(img: &image::DynamicImage) -> (r: u32)
    ensures
        r == image_of(*img).width,
{
    img.width()
}

/// `image::DynamicImage::height`.
#[verifier::external_body]
fn height_of(img: &image::DynamicImage) -> (r: u32)
    ensures
        r == image_of(*img).height,
{
    img.height()
}

/// The variants of `image::DynamicImage`: whether the samples have 16 bits. Those with samples
/// of 32 bits do not come from a PNG.
#[verifier::external_body]
fn is_deep(img: &image::DynamicImage) -> (r: bool)
    ensures
        r == image_of(*img).deep,
{
    match img {
        image::DynamicImage::ImageLuma16(_) => true,
        image::DynamicImage::ImageLumaA16(_) => true,
        image::DynamicImage::ImageRgb16(_) => true,
        image::DynamicImage::ImageRgba16(_) => true,
        _ => false,
    }
}

/// `image::DynamicImage::color` and `image::ColorType::channel_count`: how many channels there
/// are.
#[verifier::external_body]
fn channels_of(img: &image::DynamicImage) -> (r: u8)
    ensures
        r == image_of(*img).channels,
{
    img.color().channel_count()
}

/// `image::DynamicImage::to_rgba8`: the RGBA pixels. The contract says what each byte is. The
/// pixels have to be as many as a `Vec` can hold.
#[verifier::external_body]
fn to_rgba(img: &image::DynamicImage) -> (r: Vec<u8>)
    requires
        image_of(*img).wf(),
        4 * (image_of(*img).width * image_of(*img).height) <= isize::MAX,
    ensures
        r@ == rgba_of(image_of(*img)),
{
    img.to_rgba8().into_raw()
}

/// `image::DynamicImage::into_luma8`: the grey levels. The contract gives each up to six
/// tenths of a level, which is exact for 8-bit grey. Left unsaid is to which side a level in
/// between goes: it is computed in floating point, with other rounding on some targets.
#[verifier::external_body]
fn into_luma(img: image::DynamicImage) -> (r: Vec<u8>)
    requires
        image_of(img).wf(),
    ensures
        greys(r@, image_of(img)),
{
    img.into_luma8().into_raw()
}

/// `image::DynamicImage::thumbnail`: a preview that fits in a square of `max` pixels. The
/// contract names its samples, and claims that it is of the image's kind and what its sides
/// are, to the nearest pixel. The sums that it is made from have to stay within 32 bits, and
/// its samples have to be as many as a `Vec` can hold.
#[verifier::external_body]
fn thumbnail(img: &image::DynamicImage, max: u32) -> (r: image::DynamicImage)
    requires
        image_of(*img).wf(),
        sums_fit(image_of(*img), max),
        holds(image_of(*img), max),
    ensures
        image_of(r) == thumbnail_of(image_of(*img), max),
        previews(image_of(r), image_of(*img), max),
{
    img.thumbnail(max, max)
}

// ---------------------------------------------------------------------------
// Pictures and previews
// ---------------------------------------------------------------------------

fn fits(width: u32, height: u32) -> (r: bool)
    ensures
        r == (4 * (width * height) <= isize::MAX),
{
    assert(width * height <= 0xffff_ffff * 0xffff_ffff) by (nonlinear_arith)
        requires
            width <= 0xffff_ffff,
            height <= 0xffff_ffff,
    ;
    4 * (width as u128 * height as u128) <= isize::MAX as u128
}

/// The picture in a screenshot file, from its bytes.
pub fn load(bytes: &[u8]) -> (r: Result<Picture, PictureError>)
    ensures
        match png_image(bytes@) {
            Ok(i) => if 4 * (i.width * i.height) <= isize::MAX {
                r matches Ok(p) && p@ == picture_of(i) && p.wf()
            } else {
                r matches Err(PictureError::TooLarge)
            },
            Err(why) => r matches Err(PictureError::Undecodable(e)) && e@ == why,
        },
{
    match open_png(bytes) {
        Ok(img) => {
            let width: u32 = width_of(&img);
            let height: u32 = height_of(&img);
            if !fits(width, height) {
                return Err(PictureError::TooLarge);
            }
            Ok(Picture { width, height, rgba: to_rgba(&img) })
        },
        Err(why) => Err(PictureError::Undecodable(why)),
    }
}

fn loose_block_of(side: u32, parts: u64) -> (r: u64)
    requires
        parts > 0,
    ensures
        r == loose_block(side as int, parts as int),
        r <= side,
{
    assert(side as int / parts as int <= side) by (nonlinear_arith)
        requires
            parts > 0,
    ;
    let most: u64 = side as u64 / parts + side as u64 / 0x20_0000 + 2;
    if most < side as u64 {
        most
    } else {
        side as u64
    }
}

fn block_of(side: u32, parts: u64) -> (r: u64)
    requires
        parts > 0,
    ensures
        r == block(side as int, parts as int),
        r <= side,
{
    assert(side as int / parts as int <= side) by (nonlinear_arith)
        requires
            parts > 0,
    ;
    if side as u64 % parts == 0 && side <= 0x100_0000 {
        side as u64 / parts
    } else {
        loose_block_of(side, parts)
    }
}

/// The longer and the shorter side.
fn sides_of(img: &image::DynamicImage) -> (r: (u32, u32))
    ensures
        r.0 == long_side(image_of(*img)),
        r.1 == short_side(image_of(*img)),
{
    let width: u32 = width_of(img);
    let height: u32 = height_of(img);
    if width >= height {
        (width, height)
    } else {
        (height, width)
    }
}

/// The longer side of a preview.
fn preview_side(max: u32) -> (r: u32)
    ensures
        r == preview_long(max),
{
    if max == 0 {
        1
    } else {
        max
    }
}

fn can_sum(img: &image::DynamicImage, max: u32) -> (r: bool)
    requires
        image_of(*img).wf(),
    ensures
        r == sums_fit(image_of(*img), max),
{
    let (long, short): (u32, u32) = sides_of(img);
    assert(0 <= max * short <= 0xffff_ffff * 0xffff_ffff) by (nonlinear_arith)
        requires
            0 <= max <= 0xffff_ffff,
            0 <= short <= 0xffff_ffff,
    ;
    let scaled: u64 = max as u64 * short as u64;
    let whole: u64 = scaled / long as u64;
    let across: u64 = block_of(long, preview_side(max) as u64);
    let down: u64 = if max > 0 && scaled % long as u64 == 0 {
        assert(scaled > 0) by (nonlinear_arith)
            requires
                scaled == max * short,
                max > 0,
                short > 0,
        ;
        assert(whole > 0) by (nonlinear_arith)
            requires
                scaled > 0,
                long > 0,
                scaled as int % long as int == 0,
                whole == scaled as int / long as int,
        ;
        block_of(short, whole)
    } else {
        loose_block_of(
            short,
            if whole < 1 {
                1
            } else {
                whole
            },
        )
    };
    assert(0 <= across * down <= 0xffff_ffff * 0xffff_ffff) by (nonlinear_arith)
        requires
            0 <= across <= 0xffff_ffff,
            0 <= down <= 0xffff_ffff,
    ;
    let pixels: u128 = across as u128 * down as u128;
    if is_deep(img) {
        pixels * 0xffff + pixels / 2 <= u32::MAX as u128
    } else {
        pixels * 0xff + pixels / 2 <= u32::MAX as u128
    }
}

fn can_hold(img: &image::DynamicImage, max: u32) -> (r: bool)
    requires
        image_of(*img).wf(),
    ensures
        r == holds(image_of(*img), max),
{
    let (long, short): (u32, u32) = sides_of(img);
    assert(0 <= max * short <= 0xffff_ffff * 0xffff_ffff) by (nonlinear_arith)
        requires
            0 <= max <= 0xffff_ffff,
            0 <= short <= 0xffff_ffff,
    ;
    let scaled: u128 = max as u128 * short as u128;
    let nearest: u128 = (100 * scaled + 51 * long as u128) / (100 * long as u128);
    assert(nearest <= 100 * scaled + 51 * long) by (nonlinear_arith)
        requires
            nearest == (100 * scaled + 51 * long) as int / (100 * long) as int,
            long > 0,
    ;
    assert(nearest <= max + 1) by (nonlinear_arith)
        requires
            nearest == (100 * scaled + 51 * long) as int / (100 * long) as int,
            scaled == max * short,
            0 < short <= long,
    ;
    let most: u128 = if nearest < 1 {
        1
    } else {
        nearest
    };
    let parts: u128 = preview_side(max) as u128;
    assert(0 <= parts * most <= 0xffff_ffff * 0x1_0000_0000) by (nonlinear_arith)
        requires
            0 <= parts <= 0xffff_ffff,
            0 <= most <= 0x1_0000_0000,
    ;
    let pixels: u128 = parts * most;
    let channels: u128 = channels_of(img) as u128;
    let bytes: u128 = if is_deep(img) {
        2 * channels
    } else {
        channels
    };
    assert(0 <= bytes * pixels <= 8 * (0xffff_ffff * 0x1_0000_0000)) by (nonlinear_arith)
        requires
            0 <= bytes <= 8,
            0 <= pixels <= 0xffff_ffff * 0x1_0000_0000,
    ;
    bytes * pixels <= isize::MAX as u128 && 4 * pixels <= isize::MAX as u128
}

/// Whether `c` can stand for `o` on the way to a preview: of its kind, no larger, and in its
/// proportion up to seven tenths of a pixel, or one pixel thin where it would be less.
spec fn stands_for(c: Image, o: Image) -> bool {
    &&& c.wf() && c.moderate() && c.channels == o.channels && c.deep == o.deep
    &&& o.width >= o.height ==> c.width >= c.height
    &&& o.width < o.height ==> c.width <= c.height
    &&& in_step(long_side(o), short_side(o), long_side(c), short_side(c))
}

spec fn in_step(l: int, s: int, m: int, t: int) -> bool {
    -7 * l <= 10 * (t * l - m * s) <= 7 * l || (t == 1 && m * s <= l)
}

/// Two previews in a row, the second no more than a quarter of the first, keep in step.
proof fn lemma_in_step(l: int, s: int, m: int, t: int, n: int, u: int)
    requires
        0 < s <= l,
        0 < t <= m,
        0 < n,
        4 * n <= m,
        1 <= u,
        in_step(l, s, m, t),
        -51 * m <= 100 * (u * m - n * t) <= 51 * m || (u == 1 && 100 * (n * t) <= 51 * m),
    ensures
        in_step(l, s, n, u),
{
    let first = t * l - m * s;
    let second = u * m - n * t;
    let both = u * l - n * s;
    assert(m * both == l * second + n * first) by (nonlinear_arith)
        requires
            first == t * l - m * s,
            second == u * m - n * t,
            both == u * l - n * s,
    ;
    assert(4 * (n * l) <= m * l) by (nonlinear_arith)
        requires
            4 * n <= m,
            0 < l,
    ;
    if t == 1 && m * s <= l {
        assert(n * s <= m * s) by (nonlinear_arith)
            requires
                n <= m,
                0 < s,
        ;
        if u > 1 {
            assert(u * m >= 2 * m) by (nonlinear_arith)
                requires
                    u >= 2,
                    m > 0,
            ;
            assert(n * t == n);
        }
    } else {
        assert(-7 * (n * l) <= 10 * (n * first) <= 7 * (n * l)) by (nonlinear_arith)
            requires
                -7 * l <= 10 * first <= 7 * l,
                0 < n,
        ;
        if -51 * m <= 100 * second <= 51 * m {
            assert(-51 * (m * l) <= 100 * (l * second) <= 51 * (m * l)) by (nonlinear_arith)
                requires
                    -51 * m <= 100 * second <= 51 * m,
                    0 < l,
            ;
            assert(-7 * (m * l) <= 10 * (m * both) <= 7 * (m * l));
            assert(-7 * l <= 10 * both <= 7 * l) by (nonlinear_arith)
                requires
                    -7 * (m * l) <= 10 * (m * both) <= 7 * (m * l),
                    0 < m,
            ;
        } else {
            assert(100 * (l * (n * t)) <= 51 * (m * l)) by (nonlinear_arith)
                requires
                    100 * (n * t) <= 51 * m,
                    0 < l,
            ;
            assert(m * (n * s) == l * (n * t) - n * first) by (nonlinear_arith)
                requires
                    first == t * l - m * s,
            ;
            assert(m * (n * s) <= m * l);
            assert(n * s <= l) by (nonlinear_arith)
                requires
                    m * (n * s) <= m * l,
                    0 < m,
            ;
        }
    }
}

/// How long and how broad a moderate image is at most.
proof fn lemma_moderate(i: Image)
    requires
        i.wf(),
        i.moderate(),
    ensures
        i.width * i.height == long_side(i) * short_side(i),
        long_side(i) <= 0x2000_0000,
        short_side(i) < 0x8000,
        1 <= i.pixel_bytes() <= 8,
        i.pixel_bytes() * (long_side(i) * short_side(i)) <= 0x2000_0000,
{
    let pixels = i.width * i.height;
    let l = long_side(i);
    let s = short_side(i);
    assert(pixels == l * s) by (nonlinear_arith)
        requires
            pixels == i.width * i.height,
            (l == i.width && s == i.height) || (l == i.height && s == i.width),
    ;
    assert(pixels <= i.pixel_bytes() * pixels) by (nonlinear_arith)
        requires
            1 <= i.pixel_bytes(),
            0 <= pixels,
            pixels == i.width * i.height,
    ;
    assert(l <= l * s) by (nonlinear_arith)
        requires
            s >= 1,
            l >= 0,
    ;
    assert(s < 0x8000) by (nonlinear_arith)
        requires
            0 <= s <= l,
            l * s <= 0x2000_0000,
    ;
}

/// Where the longer side is at most sixty-four times that of the preview, the sums fit.
proof fn lemma_sums_fit(i: Image, max: u32)
    requires
        i.wf(),
        i.moderate(),
        long_side(i) <= 64 * preview_long(max),
    ensures
        sums_fit(i, max),
{
    lemma_moderate(i);
    let l = long_side(i);
    let s = short_side(i);
    let n = preview_long(max);
    let across = block(l, n);
    assert(0 <= l / n <= 64) by (nonlinear_arith)
        requires
            0 <= l <= 64 * n,
            n > 0,
    ;
    assert(0 <= across <= 322);
    let scaled = max * s;
    assert(0 <= scaled) by (nonlinear_arith)
        requires
            scaled == max * s,
            s > 0,
    ;
    let whole = scaled / l;
    let down = short_block(i, max);
    if max == 0 {
        assert(scaled == 0);
        assert(whole == 0) by (nonlinear_arith)
            requires
                scaled == 0,
                l > 0,
                whole == scaled / l,
        ;
        assert(s <= l);
        assert(0 <= down <= s);
    } else if whole < 1 {
        assert(scaled < l) by (nonlinear_arith)
            requires
                whole == scaled / l,
                whole < 1,
                l > 0,
        ;
        assert(s < 64) by (nonlinear_arith)
            requires
                scaled == max * s,
                scaled < l,
                l <= 64 * max,
                max > 0,
                s > 0,
        ;
        assert(scaled > 0) by (nonlinear_arith)
            requires
                scaled == max * s,
                max > 0,
                s > 0,
        ;
        assert(scaled % l != 0) by (nonlinear_arith)
            requires
                0 < scaled < l,
        ;
        assert(0 <= down <= s);
    } else {
        assert(2 * (whole * l) >= scaled) by (nonlinear_arith)
            requires
                whole == scaled / l,
                whole >= 1,
                l > 0,
                scaled >= 0,
        ;
        assert(128 * whole >= s) by (nonlinear_arith)
            requires
                2 * (whole * l) >= scaled,
                scaled == max * s,
                l <= 64 * max,
                max > 0,
                whole >= 1,
                s > 0,
        ;
        assert(0 <= s / whole <= 128) by (nonlinear_arith)
            requires
                128 * whole >= s,
                whole >= 1,
                s > 0,
        ;
        assert(0 <= down <= 130);
    }
    assert(0 <= down <= 130);
    assert(0 <= across * down <= 322 * 130) by (nonlinear_arith)
        requires
            0 <= across <= 322,
            0 <= down <= 130,
    ;
}

/// For a square of no more than a quarter of the longer side, a preview can be held and is
/// moderate.
proof fn lemma_quarter_holds(i: Image, max: u32)
    requires
        i.wf(),
        i.moderate(),
        4 * preview_long(max) <= long_side(i),
    ensures
        holds(i, max),
        i.pixel_bytes() * (preview_long(max) * most_short(i, max)) <= 0x2000_0000,
{
    lemma_moderate(i);
    let l = long_side(i);
    let s = short_side(i);
    let n = preview_long(max);
    let most = most_short(i, max);
    let scaled = max * s;
    assert(0 <= 4 * scaled <= l * s) by (nonlinear_arith)
        requires
            scaled == max * s,
            0 <= max,
            4 * max <= l,
            0 < s,
    ;
    let nearest = (100 * scaled + 51 * l) / (100 * l);
    assert(nearest <= s) by (nonlinear_arith)
        requires
            nearest == (100 * scaled + 51 * l) / (100 * l),
            4 * scaled <= l * s,
            l > 0,
            s >= 1,
    ;
    assert(1 <= most <= s);
    let pixels = n * most;
    assert(0 <= 4 * pixels <= l * s) by (nonlinear_arith)
        requires
            pixels == n * most,
            0 < n,
            4 * n <= l,
            1 <= most <= s,
    ;
    let bytes = i.pixel_bytes();
    assert(l * s <= bytes * (l * s)) by (nonlinear_arith)
        requires
            1 <= bytes,
            0 <= l * s,
    ;
    assert(bytes * pixels <= bytes * (l * s)) by (nonlinear_arith)
        requires
            0 <= pixels,
            4 * pixels <= l * s,
            1 <= bytes,
    ;
}

/// A preview for a square of no more than a quarter of the longer side stands for what its
/// image stands for.
proof fn lemma_preview_stands(o: Image, i: Image, p: Image, max: u32)
    requires
        o.wf(),
        stands_for(i, o),
        previews(p, i, max),
        max > 0,
        4 * max <= long_side(i),
    ensures
        stands_for(p, o),
        long_side(p) == max,
{
    let short = if i.width >= i.height {
        p.height as int
    } else {
        p.width as int
    };
    lemma_square_preview(i, p, max);
    lemma_in_step(
        long_side(o),
        short_side(o),
        long_side(i),
        short_side(i),
        max as int,
        short,
    );
    lemma_quarter_holds(i, max);
    lemma_preview_pixels(i, p, max);
    let pixels = p.width * p.height;
    assert(p.pixel_bytes() * pixels <= i.pixel_bytes() * (max * most_short(i, max)))
        by (nonlinear_arith)
        requires
            p.pixel_bytes() == i.pixel_bytes(),
            0 <= p.pixel_bytes(),
            pixels <= max * most_short(i, max),
    ;
}

/// A square image has a square preview.
proof fn lemma_square_preview(i: Image, p: Image, max: u32)
    requires
        i.wf(),
        previews(p, i, max),
    ensures
        i.width == i.height ==> p.width == p.height,
{
    if i.width == i.height {
        let l = long_side(i);
        let short = p.height as int;
        assert(short == preview_long(max)) by (nonlinear_arith)
            requires
                l > 0,
                1 <= short <= preview_long(max),
                preview_long(max) == max || (preview_long(max) == 1 && max == 0),
                -51 * l <= 100 * (short * l - max * l) <= 51 * l || (short == 1 && 100 * (max * l)
                    <= 51 * l),
                max >= 0,
        ;
    }
}

/// How many pixels a preview has at most.
proof fn lemma_preview_pixels(i: Image, p: Image, max: u32)
    requires
        i.wf(),
        previews(p, i, max),
    ensures
        0 <= p.width * p.height <= preview_long(max) * most_short(i, max),
{
    let l = long_side(i);
    let n = preview_long(max);
    let scaled = max * short_side(i);
    let short = if i.width >= i.height {
        p.height as int
    } else {
        p.width as int
    };
    let most = most_short(i, max);
    assert(short <= most) by (nonlinear_arith)
        requires
            l > 0,
            short == 1 || 100 * (short * l - scaled) <= 51 * l,
            most >= 1,
            most >= (100 * scaled + 51 * l) / (100 * l),
    ;
    assert(0 <= p.width * p.height <= n * most) by (nonlinear_arith)
        requires
            (p.width == n && p.height == short) || (p.width == short && p.height == n),
            0 <= n,
            0 <= short <= most,
    ;
}

/// The preview of what stands for an image has the sides of a preview of that image.
proof fn lemma_preview_sides(o: Image, i: Image, p: Image, max: u32)
    requires
        o.wf(),
        stands_for(i, o),
        previews(p, i, max),
        i == o || 4 * preview_long(max) <= long_side(i),
    ensures
        preview_sides(o, p.width, p.height, max),
{
    let l = long_side(o);
    let s = short_side(o);
    let short = if i.width >= i.height {
        p.height as int
    } else {
        p.width as int
    };
    lemma_square_preview(i, p, max);
    if max > 0 {
        assert(max * s > 0) by (nonlinear_arith)
            requires
                max > 0,
                s > 0,
        ;
        if i != o {
            lemma_in_step(l, s, long_side(i), short_side(i), max as int, short);
        }
        assert(short == 1 ==> short * l == l) by (nonlinear_arith);
    }
}

/// A preview fits in the square that it is made for, and has no empty side.
pub proof fn law_preview_fits(i: Image, width: u32, height: u32, max: u32)
    requires
        max >= 1,
        preview_sides(i, width, height, max),
    ensures
        1 <= width <= max,
        1 <= height <= max,
{
}

proof fn lemma_next_square(i: Image, max: u32)
    requires
        i.wf(),
        i.moderate(),
        !sums_fit(i, max),
    ensures
        16 * preview_long(max) <= next_square(i, max),
        4 * next_square(i, max) <= long_side(i),
        long_side(i) <= 64 * next_square(i, max),
{
    if long_side(i) <= 64 * preview_long(max) {
        lemma_sums_fit(i, max);
    }
}

/// A preview of an image for a square of `max` pixels.
fn preview(img: image::DynamicImage, max: u32) -> (r: image::DynamicImage)
    requires
        image_of(img).wf(),
        image_of(img).moderate(),
        holds(image_of(img), max),
    ensures
        image_of(r) == preview_of(image_of(img), max),
        image_of(r).wf(),
        preview_sides(image_of(img), image_of(r).width, image_of(r).height, max),
        4 * (image_of(r).width * image_of(r).height) <= isize::MAX,
{
    let ghost o = image_of(img);
    let mut larger = img;
    proof {
        let l = long_side(o);
        let s = short_side(o);
        assert(s * l - l * s == 0) by (nonlinear_arith);
    }
    while !can_sum(&larger, max)
        invariant
            o.wf(),
            holds(o, max),
            stands_for(image_of(larger), o),
            image_of(larger) == o || 16 * preview_long(max) <= long_side(image_of(larger)),
            preview_of(o, max) == preview_of(image_of(larger), max),
        decreases long_side(image_of(larger)),
    {
        let ghost i = image_of(larger);
        proof {
            lemma_next_square(i, max);
            lemma_moderate(i);
        }
        let (long, _): (u32, u32) = sides_of(&larger);
        let least: u64 = 16 * preview_side(max) as u64;
        let part: u64 = (long as u64 + 63) / 64;
        let square: u32 = if part < least {
            least as u32
        } else {
            part as u32
        };
        proof {
            lemma_sums_fit(i, square);
            lemma_quarter_holds(i, square);
        }
        larger = thumbnail(&larger, square);
        proof {
            lemma_preview_stands(o, i, image_of(larger), square);
        }
    }
    proof {
        if image_of(larger) != o {
            lemma_quarter_holds(image_of(larger), max);
        }
    }
    let r = thumbnail(&larger, max);
    proof {
        lemma_preview_sides(o, image_of(larger), image_of(r), max);
        lemma_preview_pixels(image_of(larger), image_of(r), max);
    }
    r
}

/// A preview of the picture in a screenshot file that fits in a square of `max` pixels, made
/// in one step wherever the sums for that stay within 32 bits.
pub fn load_thumb(bytes: &[u8], max: u32) -> (r: Result<Picture, PictureError>)
    ensures
        match png_image(bytes@) {
            Ok(i) => if holds(i, max) {
                r matches Ok(p) && p@ == picture_of(preview_of(i, max)) && p.wf() && preview_sides(
                    i,
                    p.width,
                    p.height,
                    max,
                ) && (sums_fit(i, max) ==> p@ == picture_of(thumbnail_of(i, max)))
            } else {
                r matches Err(PictureError::TooLarge)
            },
            Err(why) => r matches Err(PictureError::Undecodable(e)) && e@ == why,
        },
{
    match open_png(bytes) {
        Ok(img) => {
            if !can_hold(&img, max) {
                return Err(PictureError::TooLarge);
            }
            let small = preview(img, max);
            Ok(
                Picture {
                    width: width_of(&small),
                    height: height_of(&small),
                    rgba: to_rgba(&small),
                },
            )
        },
        Err(why) => Err(PictureError::Undecodable(why)),
    }
}

/// The name under which a preview is kept: `thumb:` and the file name, or `thumb` again
/// where that is no text.
pub fn thumb_label(name: &Vec<u8>) -> (r: String)
    ensures
        r@ == "thumb:"@ + (if valid_utf8(name@) {
            decode_utf8(name@)
        } else {
            "thumb"@
        }),
{
    let mut label = String::from_str("thumb:");
    match utf8_text(name.as_slice()) {
        Some(text) => label.append(text),
        None => label.append("thumb"),
    }
    label
}

// ---------------------------------------------------------------------------
// QR codes
// ---------------------------------------------------------------------------

/// The grey levels of a screenshot file, from its bytes: what is searched for QR codes.
pub fn load_grey(bytes: &[u8]) -> (r: Result<Grey, PictureError>)
    ensures
        match png_image(bytes@) {
            Ok(i) => r matches Ok(g) && g.width == i.width && g.height == i.height && greys(
                g.levels@,
                i,
            ),
            Err(why) => r matches Err(PictureError::Undecodable(e)) && e@ == why,
        },
{
    match open_png(bytes) {
        Ok(img) => {
            let width: u32 = width_of(&img);
            let height: u32 = height_of(&img);
            Ok(Grey { width, height, levels: into_luma(img) })
        },
        Err(why) => Err(PictureError::Undecodable(why)),
    }
}

/// What the outcomes of decoding hold.
pub open spec fn texts_view(codes: Seq<Option<String>>) -> Seq<Option<Seq<char>>> {
    codes.map_values(
        |c: Option<String>|
            match c {
                Some(t) => Some(t@),
                None => None,
            },
    )
}

/// The first text among the outcomes that is not empty.
pub open spec fn first_text_of(codes: Seq<Option<Seq<char>>>) -> Option<Seq<char>>
    decreases codes.len(),
{
    if codes.len() == 0 {
        None
    } else if codes[0] is Some && codes[0]->0.len() > 0 {
        codes[0]
    } else {
        first_text_of(codes.drop_first())
    }
}

/// The text of the first code that could be decoded and is not empty.
pub fn first_text(codes: &Vec<Option<String>>) -> (r: Option<String>)
    ensures
        match r {
            Some(t) => first_text_of(texts_view(codes@)) == Some(t@),
            None => first_text_of(texts_view(codes@)) is None,
        },
{
    let ghost all = texts_view(codes@);
    let mut i: usize = 0;
    assert(all.skip(0) =~= all);
    while i < codes.len()
        invariant
            i <= codes@.len(),
            all == texts_view(codes@),
            first_text_of(all) == first_text_of(all.skip(i as int)),
        decreases codes@.len() - i,
    {
        assert(all.skip(i as int).drop_first() =~= all.skip(i + 1));
        assert(all.skip(i as int)[0] == all[i as int]);
        if let Some(text) = &codes[i] {
            if !text.as_str().is_empty() {
                return Some(text.clone());
            }
        }
        i = i + 1;
    }
    None
}

/// The text of the first QR code in a screenshot, from the search for codes in it: the first
/// that could be decoded and is not empty, and none where the search came to no end.
pub fn decode_qr(search: &QrSearch) -> (r: Option<String>)
    ensures
        match search {
            QrSearch::Codes(codes) => match r {
                Some(t) => first_text_of(texts_view(codes@)) == Some(t@),
                None => first_text_of(texts_view(codes@)) is None,
            },
            _ => r is None,
        },
{
    match search {
        QrSearch::Codes(codes) => first_text(codes),
        QrSearch::Unfinished => None,
        QrSearch::Unopened => None,
    }
}

/// The text that counts is that of the first code with a text that is not empty: those before
/// it that failed or are empty are passed over, and those behind it make no difference.
pub proof fn law_first_code_counts(codes: Seq<Option<Seq<char>>>, i: int)
    requires
        0 <= i < codes.len(),
        codes[i] is Some,
        codes[i]->0.len() > 0,
        forall|k: int| 0 <= k < i ==> (#[trigger] codes[k]) is None || codes[k]->0.len() == 0,
    ensures
        first_text_of(codes) == codes[i],
    decreases codes.len(),
{
    if i > 0 {
        let rest = codes.drop_first();
        assert(codes[0] is None || codes[0]->0.len() == 0);
        assert forall|k: int| 0 <= k < i - 1 implies (#[trigger] rest[k]) is None
            || rest[k]->0.len() == 0 by {
            assert(rest[k] == codes[k + 1]);
        }
        law_first_code_counts(rest, i - 1);
    }
}

/// Where no code has a text, there is none.
pub proof fn law_no_code_no_text(codes: Seq<Option<Seq<char>>>)
    requires
        forall|k: int| 0 <= k < codes.len() ==> (#[trigger] codes[k]) is None || codes[k]->0.len()
            == 0,
    ensures
        first_text_of(codes) is None,
    decreases codes.len(),
{
    if codes.len() > 0 {
        let rest = codes.drop_first();
        assert(codes[0] is None || codes[0]->0.len() == 0);
        assert forall|k: int| 0 <= k < rest.len() implies (#[trigger] rest[k]) is None
            || rest[k]->0.len() == 0 by {
            assert(rest[k] == codes[k + 1]);
        }
        law_no_code_no_text(rest);
    }
}

/// What the outcomes hold is each outcome's text, in their order.
pub proof fn law_outcomes_viewed(codes: Seq<Option<String>>, i: int)
    requires
        0 <= i < codes.len(),
    ensures
        texts_view(codes).len() == codes.len(),
        codes[i] is None ==> texts_view(codes)[i] is None,
        codes[i] is Some ==> texts_view(codes)[i] == Some(codes[i]->0@),
{
}

/// A preview is refused only where eight bytes for each pixel of it, with the shorter side
/// rounded up, are more than a `Vec` can hold.
pub proof fn law_refused_only_too_large(i: Image, max: u32)
    requires
        i.wf(),
        !holds(i, max),
    ensures
        8 * ((if max == 0 {
            1
        } else {
            max as int
        }) * (max * short_side(i) / long_side(i) + 1)) > isize::MAX,
{
    let l = long_side(i);
    let n = preview_long(max);
    let scaled = max * short_side(i);
    assert(scaled >= 0) by (nonlinear_arith)
        requires
            scaled == max * short_side(i),
            short_side(i) > 0,
    ;
    let most = most_short(i, max);
    let whole = scaled / l;
    assert(1 <= most <= whole + 1) by (nonlinear_arith)
        requires
            l > 0,
            scaled >= 0,
            whole == scaled / l,
            most == 1 || most == (100 * scaled + 51 * l) / (100 * l),
            most >= 1,
    ;
    let pixels = n * most;
    let bound = n * (whole + 1);
    assert(0 <= pixels <= bound) by (nonlinear_arith)
        requires
            pixels == n * most,
            bound == n * (whole + 1),
            0 <= n,
            1 <= most <= whole + 1,
    ;
    assert(i.pixel_bytes() * pixels <= 8 * bound) by (nonlinear_arith)
        requires
            1 <= i.pixel_bytes() <= 8,
            0 <= pixels <= bound,
    ;
}

/// A preview no less than a sixty-fourth of its picture is made in one call.
pub proof fn law_one_call(i: Image, max: u32)
    requires
        i.wf(),
        i.moderate(),
        i.width <= 64 * max,
        i.height <= 64 * max,
    ensures
        preview_of(i, max) == thumbnail_of(i, max),
{
    lemma_sums_fit(i, max);
}

/// Nor does a small picture take more than one, however small the preview: where all of its
/// pixels can be summed, they are.
pub proof fn law_small_picture_one_call(i: Image, max: u32)
    requires
        i.wf(),
        i.width * i.height <= 0x1_0000,
    ensures
        preview_of(i, max) == thumbnail_of(i, max),
{
    let l = long_side(i);
    let s = short_side(i);
    let n = preview_long(max);
    let across = block(l, n);
    let down = short_block(i, max);
    let scaled = max * s;
    assert(l * s <= 0x1_0000) by (nonlinear_arith)
        requires
            i.width * i.height <= 0x1_0000,
            (l == i.width && s == i.height) || (l == i.height && s == i.width),
    ;
    assert(0 <= l / n <= l) by (nonlinear_arith)
        requires
            l >= 0,
            n >= 1,
    ;
    assert(0 <= across <= l);
    if max > 0 && scaled % l == 0 {
        assert(scaled > 0) by (nonlinear_arith)
            requires
                scaled == max * s,
                max > 0,
                s > 0,
        ;
        let q = scaled / l;
        assert(q > 0) by (nonlinear_arith)
            requires
                scaled > 0,
                l > 0,
                scaled % l == 0,
                q == scaled / l,
        ;
        assert(0 <= s / q <= s) by (nonlinear_arith)
            requires
                s >= 0,
                q >= 1,
        ;
    } else {
        let q = least_short(i, max);
        assert(0 <= s / q <= s) by (nonlinear_arith)
            requires
                s >= 0,
                q >= 1,
        ;
    }
    assert(0 <= down <= s);
    assert(0 <= across * down <= l * s) by (nonlinear_arith)
        requires
            0 <= across <= l,
            0 <= down <= s,
    ;
}

} // verus!
