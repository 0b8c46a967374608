//! Thumbnails: a decoded picture scaled to fit a square of `THUMBNAIL_SIDE` pixels,
//! as rows of RGBA bytes.
//!
//! The scaling is `image::DynamicImage::thumbnail`. What this crate claims of it, and
//! of the three readers of a picture's size and pixel format, is stated on the
//! declarations below and is taken on trust.

use vstd::prelude::*;
use image::{ColorType, DynamicImage};

verus! {

/// `image::DynamicImage`, as an opaque type.
#[verifier::external_type_specification]
#[verifier::external_body]
pub struct ExDynamicImage(DynamicImage);

/// The side, in pixels, of the square that a thumbnail fits in.
pub const THUMBNAIL_SIDE: u32 = 128;

/// The largest square that `scale_to_fit` is asked for.
pub const MAX_SIDE: u32 = 4096;

/// The longest side, in pixels, of a picture that is scaled.
pub const MAX_SOURCE_SIDE: u32 = 65535;

/// How many times longer than the square's side a picture of 8-bit samples may be.
pub const MAX_SHRINK_8: u32 = 3000;

/// How many times longer than the square's side a picture of 16-bit samples may be.
pub const MAX_SHRINK_16: u32 = 200;

/// How the pixels of a decoded picture are stored.
#[derive(Clone, Copy, Debug, PartialEq, Eq, Structural)]
pub enum PixelFormat {
    L8,
    La8,
    Rgb8,
    Rgba8,
    L16,
    La16,
    Rgb16,
    Rgba16,
    Rgb32F,
    Rgba32F,
    /// A format that this crate does not know.
    Unknown,
}

/// The width of a picture, as `DynamicImage::width` gives it.
pub uninterp spec fn picture_width(image: DynamicImage) -> u32;

/// The height of a picture, as `DynamicImage::height` gives it.
pub uninterp spec fn picture_height(image: DynamicImage) -> u32;

/// The pixel format of a picture, as `DynamicImage::color` gives it.
pub uninterp spec fn picture_format(image: DynamicImage) -> PixelFormat;

/// What `DynamicImage::thumbnail` makes of a picture for a square of the given side,
/// as RGBA: width, height and bytes.
pub uninterp spec fn scaled_rgba(image: DynamicImage, side: u32) -> (u32, u32, Seq<u8>);

/// The number of bits of one sample; 0 for a format whose samples are not unsigned
/// integers of 8 or 16 bits.
pub open spec fn integer_sample_bits(format: PixelFormat) -> nat {
    match format {
        PixelFormat::L8 | PixelFormat::La8 | PixelFormat::Rgb8 | PixelFormat::Rgba8 => 8,
        PixelFormat::L16 | PixelFormat::La16 | PixelFormat::Rgb16 | PixelFormat::Rgba16 => 16,
        _ => 0,
    }
}

/// The longer side of a picture.
pub open spec fn longer_side(width: u32, height: u32) -> int {
    if width >= height {
        width as int
    } else {
        height as int
    }
}

/// Whether a picture of this size and format is scaled to a square of this side.
///
/// The scaling averages blocks of source pixels and adds up each block in 32 bits. A
/// block is at most `longer / side + 3` pixels wide and one and a half times that
/// high (or the other way round), so with the bounds below a block of 8-bit samples
/// holds fewer than 2^24 pixels and one of 16-bit samples fewer than 2^16, and no sum
/// leaves 32 bits. Pictures of floating-point samples are not scaled: a sample that
/// is not a number cannot be turned into a byte.
pub open spec fn can_scale(width: u32, height: u32, format: PixelFormat, side: u32) -> bool {
    let longer = longer_side(width, height);
    &&& longer <= MAX_SOURCE_SIDE
    &&& integer_sample_bits(format) == 8 ==> longer <= MAX_SHRINK_8 * side
    &&& integer_sample_bits(format) == 16 ==> longer <= MAX_SHRINK_16 * side
    &&& integer_sample_bits(format) != 0
}

/// Calls `DynamicImage::width`. Claimed: the result is the picture's width.
#[verifier::external_body]
fn width_of(image: &DynamicImage) -> (width: u32)
    ensures
        width == picture_width(*image),
{
    image.width()
}

/// Calls `DynamicImage::height`. Claimed: the result is the picture's height.
#[verifier::external_body]
fn height_of(image: &DynamicImage) -> (height: u32)
    ensures
        height == picture_height(*image),
{
    image.height()
}

/// Calls `DynamicImage::color` and tells its variants apart. Claimed: the result is
/// the picture's pixel format.
#[verifier::external_body]
fn format_of(image: &DynamicImage) -> (format: PixelFormat)
    ensures
        format == picture_format(*image),
{
    match image.color() {
        ColorType::L8 => PixelFormat::L8,
        ColorType::La8 => PixelFormat::La8,
        ColorType::Rgb8 => PixelFormat::Rgb8,
        ColorType::Rgba8 => PixelFormat::Rgba8,
        ColorType::L16 => PixelFormat::L16,
        ColorType::La16 => PixelFormat::La16,
        ColorType::Rgb16 => PixelFormat::Rgb16,
        ColorType::Rgba16 => PixelFormat::Rgba16,
        ColorType::Rgb32F => PixelFormat::Rgb32F,
        ColorType::Rgba32F => PixelFormat::Rgba32F,
        _ => PixelFormat::Unknown,
    }
}

/// Calls `DynamicImage::thumbnail` with `side` as both bounds and hands the result on
/// as the width, the height and the bytes of its `into_rgba8` form. It is called only
/// on pictures that `can_scale` admits. Claimed: neither side of the result is longer
/// than `side`, there are four bytes for each of its pixels, and the same picture and
/// side give the same result.
#[verifier::external_body]
fn scale_to_fit(image: &DynamicImage, side: u32) -> (scaled: (u32, u32, Vec<u8>))
    requires
        0 < side <= MAX_SIDE,
        can_scale(picture_width(*image), picture_height(*image), picture_format(*image), side),
    ensures
        (scaled.0, scaled.1, scaled.2@) == scaled_rgba(*image, side),
        scaled.0 <= side,
        scaled.1 <= side,
        scaled.2@.len() == 4 * scaled.0 * scaled.1,
{
    let rgba = image.thumbnail(side, side).into_rgba8();
    (rgba.width(), rgba.height(), rgba.into_raw())
}

/// A thumbnail as rows of RGBA bytes.
#[derive(Debug, PartialEq, Eq)]
pub struct ThumbnailImage {
    pub width: u32,
    pub height: u32,
    pub pixels: Vec<u8>,
}

#[verifier::ext_equal]
pub struct ThumbnailImageView {
    pub width: nat,
    pub height: nat,
    pub pixels: Seq<u8>,
}

impl View for ThumbnailImage {
    type V = ThumbnailImageView;

    open spec fn view(&self) -> ThumbnailImageView {
        ThumbnailImageView {
            width: self.width as nat,
            height: self.height as nat,
            pixels: self.pixels@,
        }
    }
}

impl ThumbnailImageView {
    /// The thumbnail fits the square and holds four bytes for each pixel.
    pub open spec fn wf(self) -> bool {
        &&& self.width <= THUMBNAIL_SIDE
        &&& self.height <= THUMBNAIL_SIDE
        &&& self.pixels.len() == 4 * self.width * self.height
    }
}

impl ThumbnailImage {
    /// Takes RGBA bytes as a thumbnail, if they are one: if neither side is longer
    /// than `THUMBNAIL_SIDE` and there are four bytes for each pixel.
    pub fn from_rgba(width: u32, height: u32, pixels: Vec<u8>) -> (made: Option<ThumbnailImage>)
        ensures
            match made {
                Some(thumbnail) => {
                    &&& thumbnail@ == (ThumbnailImageView {
                        width: width as nat,
                        height: height as nat,
                        pixels: pixels@,
                    })
                    &&& thumbnail@.wf()
                },
                None => !(ThumbnailImageView {
                    width: width as nat,
                    height: height as nat,
                    pixels: pixels@,
                }).wf(),
            },
    {
        if width <= THUMBNAIL_SIDE && height <= THUMBNAIL_SIDE {
            assert(4 * width * height <= 4 * 128 * 128) by (nonlinear_arith)
                requires
                    width <= 128,
                    height <= 128,
            ;
            let expected: u64 = 4 * (width as u64) * (height as u64);
            if pixels.len() as u64 == expected {
                return Some(ThumbnailImage { width, height, pixels });
            }
        }
        None
    }
}

/// Whether a picture of this size and format is scaled to a square of this side.
pub fn fits_scaling(width: u32, height: u32, format: PixelFormat, side: u32) -> (fits: bool)
    ensures
        fits == can_scale(width, height, format, side),
{
    let longer: u64 = if width >= height {
        width as u64
    } else {
        height as u64
    };
    if longer > MAX_SOURCE_SIDE as u64 {
        return false;
    }
    assert(MAX_SHRINK_8 * side <= 3000 * 0xffff_ffff && MAX_SHRINK_16 * side <= 200
        * 0xffff_ffff) by (nonlinear_arith)
        requires
            MAX_SHRINK_8 == 3000,
            MAX_SHRINK_16 == 200,
            side <= 0xffff_ffff,
    ;
    match format {
        PixelFormat::L8 | PixelFormat::La8 | PixelFormat::Rgb8 | PixelFormat::Rgba8 => longer
            <= MAX_SHRINK_8 as u64 * side as u64,
        PixelFormat::L16 | PixelFormat::La16 | PixelFormat::Rgb16 | PixelFormat::Rgba16 => longer
            <= MAX_SHRINK_16 as u64 * side as u64,
        _ => false,
    }
}

/// Whether a thumbnail is made of a picture of this size and format.
pub open spec fn has_thumbnail(width: u32, height: u32, format: PixelFormat) -> bool {
    can_scale(width, height, format, THUMBNAIL_SIDE)
}

/// The thumbnail of a picture, as `DynamicImage::thumbnail` scales it.
pub open spec fn thumbnail_of(image: DynamicImage) -> ThumbnailImageView {
    let scaled = scaled_rgba(image, THUMBNAIL_SIDE);
    ThumbnailImageView { width: scaled.0 as nat, height: scaled.1 as nat, pixels: scaled.2 }
}

/// Scales a decoded picture to a thumbnail. No thumbnail is made of a picture that is
/// longer than `MAX_SOURCE_SIDE` pixels, of a picture of 16-bit samples that is
/// longer than `MAX_SHRINK_16` times `THUMBNAIL_SIDE`, or of a picture whose samples
/// are not integers of 8 or 16 bits.
pub fn make_thumbnail(image: &DynamicImage) -> (made: Option<ThumbnailImage>)
    ensures
        match made {
            Some(thumbnail) => {
                &&& has_thumbnail(
                    picture_width(*image),
                    picture_height(*image),
                    picture_format(*image),
                )
                &&& thumbnail@ == thumbnail_of(*image)
                &&& thumbnail@.wf()
            },
            None => !has_thumbnail(
                picture_width(*image),
                picture_height(*image),
                picture_format(*image),
            ),
        },
{
    if fits_scaling(width_of(image), height_of(image), format_of(image), THUMBNAIL_SIDE) {
        let (width, height, pixels) = scale_to_fit(image, THUMBNAIL_SIDE);
        Some(ThumbnailImage { width, height, pixels })
    } else {
        None
    }
}

} // verus!
