//! What the library takes on trust of the `bmp` crate's image. Nothing in
//! this file is proved: each contract is a claim about that crate's source.

use vstd::prelude::*;
use crate::canvas::Rgb;

verus! {

/// `bmp::Image`, a raster of 24-bit pixels. Nothing of its inside is known
/// here but what the names below say.
#[verifier::external_type_specification]
#[verifier::external_body]
pub struct ExImage(bmp::Image);

/// The number of columns of an image: what `bmp::Image::get_width` returns.
pub uninterp spec fn image_width(image: bmp::Image) -> u32;

/// The number of rows of an image: what `bmp::Image::get_height` returns.
pub uninterp spec fn image_height(image: bmp::Image) -> u32;

/// The pixels that an image holds: red, green and blue of each, by column
/// and row as `bmp::Image::get_pixel` counts them, row 0 being the top row.
pub uninterp spec fn image_pixels(image: bmp::Image) -> Map<(int, int), (u8, u8, u8)>;

/// The sizes for which `bmp::Image::new` computes without overflow. It
/// multiplies width by height, and height by the length in bytes of a
/// padded row, and adds the length of the file header, all in 32 bits; a
/// padded row is shorter than four bytes for each column and four more. It
/// then allocates three bytes for each pixel, and no allocation is longer
/// than `isize::MAX` bytes.
pub open spec fn image_fits(width: u32, height: u32) -> bool {
    &&& 4 * (width + 1) * (height + 1) <= u32::MAX
    &&& 3 * width * height <= isize::MAX
}

/// `bmp::Image::new`: an image of the given size, with a pixel for every
/// column and row, all of them black.
pub assume_specification[ bmp::Image::new ](width: u32, height: u32) -> (image: bmp::Image)
    requires
        image_fits(width, height),
    ensures
        image_width(image) == width,
        image_height(image) == height,
        forall|x: int, y: int|
            0 <= x < width && 0 <= y < height ==> #[trigger] image_pixels(image).dom().contains(
                (x, y),
            ),
        forall|x: int, y: int|
            0 <= x < width && 0 <= y < height ==> #[trigger] image_pixels(image)[(x, y)] == (
                0u8,
                0u8,
                0u8,
            ),
;

/// `bmp::Image::get_width`: the width that the image was made with.
pub assume_specification[ bmp::Image::get_width ](image: &bmp::Image) -> (width: u32)
    ensures
        width == image_width(*image),
;

/// `bmp::Image::get_height`: the height that the image was made with.
pub assume_specification[ bmp::Image::get_height ](image: &bmp::Image) -> (height: u32)
    ensures
        height == image_height(*image),
;

/// `bmp::Image::set_pixel`, for a column and a row at which the image holds
/// a pixel: that pixel takes the colour, every other pixel and the size
/// stay as they are.
#[verifier::external_body]
pub(crate) fn image_set_pixel(image: &mut bmp::Image, x: u32, y: u32, color: Rgb)
    requires
        x < image_width(*old(image)),
        y < image_height(*old(image)),
        image_pixels(*old(image)).dom().contains((x as int, y as int)),
    ensures
        image_width(*final(image)) == image_width(*old(image)),
        image_height(*final(image)) == image_height(*old(image)),
        image_pixels(*final(image)) == image_pixels(*old(image)).insert(
            (x as int, y as int),
            (color.r, color.g, color.b),
        ),
    no_unwind
{
    image.set_pixel(x, y, bmp::Pixel::new(color.r, color.g, color.b));
}

/// `bmp::Image::get_pixel`, for a column and a row at which the image holds
/// a pixel: the colour of that pixel.
#[verifier::external_body]
pub(crate) fn image_get_pixel(image: &bmp::Image, x: u32, y: u32) -> (color: Rgb)
    requires
        x < image_width(*image),
        y < image_height(*image),
        image_pixels(*image).dom().contains((x as int, y as int)),
    ensures
        (color.r, color.g, color.b) == image_pixels(*image)[(x as int, y as int)],
{
    let pixel = image.get_pixel(x, y);
    Rgb { r: pixel.r, g: pixel.g, b: pixel.b }
}

} // verus!
