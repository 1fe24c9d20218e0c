//! Decoded images, as far as the registry reads them: their size and their
//! texels as RGBA bytes.
//!
//! What is said here of the `image` crate is taken on trust; the functions of
//! [`TexturePixels`] are proved from it.

use vstd::prelude::*;
use image::DynamicImage;

verus! {

/// A decoded image of the `image` crate. Its contents are opaque here.
#[verifier::external_type_specification]
#[verifier::external_body]
pub struct ExDynamicImage(image::DynamicImage);

/// The texels of an image as 8-bit RGBA, row by row, 4 bytes for each texel:
/// what `DynamicImage::to_rgba8` followed by `ImageBuffer::into_raw` gives.
pub uninterp spec fn image_pixels(image: DynamicImage) -> Seq<u8>;

/// Width and height of an image in texels.
pub uninterp spec fn image_extent(image: DynamicImage) -> (int, int);

/// Whether the samples of an image are floating-point numbers: whether it is
/// one of the variants `ImageRgb32F` and `ImageRgba32F`.
pub uninterp spec fn image_is_float(image: DynamicImage) -> bool;

/// `DynamicImage::width`: the width of the image.
#[verifier::external_body]
pub(crate) fn image_width(image: &DynamicImage) -> (r: u32)
    ensures
        r == image_extent(*image).0,
{
    image.width()
}

/// `DynamicImage::height`: the height of the image.
#[verifier::external_body]
pub(crate) fn image_height(image: &DynamicImage) -> (r: u32)
    ensures
        r == image_extent(*image).1,
{
    image.height()
}

/// Tells the two floating-point variants of `DynamicImage` from the others.
#[verifier::external_body]
pub(crate) fn has_float_samples(image: &DynamicImage) -> (r: bool)
    ensures
        r == image_is_float(*image),
{
    matches!(image, DynamicImage::ImageRgb32F(_) | DynamicImage::ImageRgba32F(_))
}

/// `DynamicImage::to_rgba8`, unwrapped with `ImageBuffer::into_raw`: a fresh
/// buffer of exactly 4 bytes for each texel of the image.
///
/// The conversion panics on a floating-point sample that is not a number. It
/// computes the length of the buffer as 4 times the width, then times the
/// height, and panics where either product does not fit `usize`; the
/// allocation panics where the length is above `isize::MAX`. Images of these
/// kinds are left out.
#[verifier::external_body]
pub(crate) fn image_rgba(image: &DynamicImage) -> (r: Vec<u8>)
    requires
        !image_is_float(*image),
        image_extent(*image).0 * 4 <= usize::MAX,
        image_extent(*image).0 * image_extent(*image).1 * 4 <= isize::MAX,
    ensures
        r@ == image_pixels(*image),
        r@.len() == image_extent(*image).0 * image_extent(*image).1 * 4,
{
    image.to_rgba8().into_raw()
}

/// The size of loaded pixel data: its dimensions in texels and its length in
/// bytes.
#[derive(Clone, Copy, Debug, PartialEq, Eq, Structural)]
pub struct PixelExtent {
    pub width: u32,
    pub height: u32,
    pub byte_len: usize,
}

/// Loaded pixel data: RGBA, 4 bytes for each texel, row by row.
#[derive(Debug)]
pub struct TexturePixels {
    pub width: u32,
    pub height: u32,
    pub data: Vec<u8>,
}

/// Whether an image can be read as 8-bit RGBA: its samples are integers, the
/// bytes of one row can be counted, and one buffer can hold 4 bytes for each
/// texel.
pub open spec fn image_readable(image: DynamicImage) -> bool {
    &&& !image_is_float(image)
    &&& image_extent(image).0 * 4 <= usize::MAX
    &&& image_extent(image).0 * image_extent(image).1 * 4 <= isize::MAX
}

impl TexturePixels {
    /// The texels of `image` as RGBA bytes, if it can be read as such.
    pub fn from_image(image: &DynamicImage) -> (r: Option<TexturePixels>)
        ensures
            r.is_some() == image_readable(*image),
            match r {
                Some(pixels) => {
                    &&& pixels.width == image_extent(*image).0
                    &&& pixels.height == image_extent(*image).1
                    &&& pixels.data@ == image_pixels(*image)
                    &&& pixels.data@.len() == pixels.width * pixels.height * 4
                },
                None => true,
            },
    {
        if has_float_samples(image) {
            return None;
        }
        let width: u32 = image_width(image);
        let height: u32 = image_height(image);
        let row: u128 = width as u128 * 4;
        if row > usize::MAX as u128 {
            return None;
        }
        assert(row * height <= 0x3_ffff_fffc * 0xffff_ffff) by (nonlinear_arith)
            requires
                row <= 0x3_ffff_fffc,
                height <= 0xffff_ffff,
        ;
        assert(row * height == width * height * 4) by (nonlinear_arith)
            requires
                row == width * 4,
        ;
        let bytes: u128 = row * height as u128;
        if bytes > isize::MAX as u128 {
            return None;
        }
        Some(TexturePixels { width, height, data: image_rgba(image) })
    }

    /// The size of the data.
    pub fn extent(&self) -> (r: PixelExtent)
        ensures
            r == (PixelExtent {
                width: self.width,
                height: self.height,
                byte_len: self.data@.len() as usize,
            }),
    {
        PixelExtent { width: self.width, height: self.height, byte_len: self.data.len() }
    }
}

} // verus!
