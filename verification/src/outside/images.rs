//! Raster images, by the `image` crate.
use image::DynamicImage;
use image::ImageFormat;
use image::RgbaImage;
use vstd::prelude::*;

verus! {

/// A format of image files.
#[verifier::external_type_specification]
#[verifier::external_body]
pub struct ExImageFormat(ImageFormat);

/// An image of any pixel layout.
#[verifier::external_type_specification]
#[verifier::external_body]
pub struct ExDynamicImage(DynamicImage);

/// What an image holds besides its size: the pixel layout, the samples and the
/// description of the colours.
pub uninterp spec fn image_pixels(image: DynamicImage) -> Seq<u8>;

/// The width and the height of an image.
pub uninterp spec fn image_size(image: DynamicImage) -> (u32, u32);

/// The number of bytes in the buffer of an image.
pub uninterp spec fn buffer_len(image: DynamicImage) -> nat;

/// The number of bytes that the pixel layout of an image takes for a pixel.
pub uninterp spec fn pixel_bytes(image: DynamicImage) -> nat;

/// Whether the buffer of an image holds its pixels and nothing more.
pub open spec fn fits_size(image: DynamicImage) -> bool {
    buffer_len(image) == image_size(image).0 * image_size(image).1 * pixel_bytes(image)
}

/// The pixels of the image that `RgbaImage::from_raw` makes of a size and samples.
pub uninterp spec fn rgba_pixels(width: u32, height: u32, samples: Seq<u8>) -> Seq<u8>;

/// The format that `image::guess_format` tells by the first bytes of a file.
pub uninterp spec fn guessed_format(file: Seq<u8>) -> Option<ImageFormat>;

/// What `image::load_from_memory_with_format` makes of a file of a format: size
/// and pixels, or nothing.
pub uninterp spec fn decoded(file: Seq<u8>, format: ImageFormat) -> Option<((u32, u32), Seq<u8>)>;

/// What `DynamicImage::write_to` makes of an image in the PNG format: the file,
/// or the text of the error.
pub uninterp spec fn png_file(size: (u32, u32), pixels: Seq<u8>) -> Result<Seq<u8>, Seq<char>>;

/// `RgbaImage::from_raw` makes an image of a size out of samples, four for a
/// pixel, and keeps all of them. It refuses where there are too few of them, and
/// where those of a row are more than can be counted.
#[verifier::external_body]
pub(crate) fn rgba_image(width: u32, height: u32, samples: Vec<u8>) -> (r: Option<DynamicImage>)
    ensures
        r is Some <==> (4 * width <= usize::MAX && 4 * width * height <= samples@.len()),
        r is Some ==> image_size(r->0) == (width, height),
        r is Some ==> image_pixels(r->0) == rgba_pixels(width, height, samples@),
        r is Some ==> buffer_len(r->0) == samples@.len(),
        r is Some ==> pixel_bytes(r->0) == 4,
{
    RgbaImage::from_raw(width, height, samples).map(DynamicImage::ImageRgba8)
}

/// `image::guess_format` tells the format of a file by its first bytes. It asks
/// no hook that a process may have registered; the outcome depends on the bytes
/// alone.
#[verifier::external_body]
pub(crate) fn guess_format(file: &[u8]) -> (r: Option<ImageFormat>)
    ensures
        r == guessed_format(file@),
{
    image::guess_format(file).ok()
}

/// `image::load_from_memory_with_format` reads an image file of a format. It asks
/// no hook that a process may have registered; the outcome depends on the bytes
/// and the format alone. The buffer of the image fits its size.
#[verifier::external_body]
pub(crate) fn decode_image(file: &[u8], format: ImageFormat) -> (r: Option<DynamicImage>)
    ensures
        match r {
            Some(image) => decoded(file@, format) == Some((image_size(image), image_pixels(image)))
                && fits_size(image),
            None => decoded(file@, format) is None,
        },
{
    image::load_from_memory_with_format(file, format).ok()
}

/// `DynamicImage::as_bytes` gives the whole buffer.
#[verifier::external_body]
pub(crate) fn buffer_len_of(image: &DynamicImage) -> (r: usize)
    ensures
        r == buffer_len(*image),
{
    image.as_bytes().len()
}

/// `ColorType::bytes_per_pixel`, of `DynamicImage::color`, tells how many bytes a
/// pixel takes.
#[verifier::external_body]
pub(crate) fn pixel_bytes_of(image: &DynamicImage) -> (r: u8)
    ensures
        r == pixel_bytes(*image),
{
    image.color().bytes_per_pixel()
}

/// `DynamicImage::write_to` writes an image as a PNG file. The outcome depends
/// on the size and the pixels alone. It panics where the buffer does not fit the
/// size.
#[verifier::external_body]
pub(crate) fn encode_png(image: &DynamicImage) -> (r: Result<Vec<u8>, String>)
    requires
        fits_size(*image),
    ensures
        match r {
            Ok(file) => png_file(image_size(*image), image_pixels(*image)) == Ok::<
                Seq<u8>,
                Seq<char>,
            >(file@),
            Err(e) => png_file(image_size(*image), image_pixels(*image)) == Err::<
                Seq<u8>,
                Seq<char>,
            >(e@),
        },
{
    let mut file: Vec<u8> = Vec::new();
    let mut cursor = std::io::Cursor::new(&mut file);
    image.write_to(&mut cursor, ImageFormat::Png).map_err(|e| e.to_string())?;
    Ok(file)
}

/// `DynamicImage::width` gives the width.
#[verifier::external_body]
pub(crate) fn width_of(image: &DynamicImage) -> (r: u32)
    ensures
        r == image_size(*image).0,
{
    image.width()
}

/// `DynamicImage::height` gives the height.
#[verifier::external_body]
pub(crate) fn height_of(image: &DynamicImage) -> (r: u32)
    ensures
        r == image_size(*image).1,
{
    image.height()
}

} // verus!
