//! From what the clipboard holds to a PNG file in memory.
use crate::outside::images;
use crate::paste::image_info::EncodedImageFormat;
use crate::paste::image_info::PasteErrorKind;
use crate::paste::image_info::PasteErrorView;
use crate::paste::image_info::PasteImageError;
use crate::paste::image_info::PastedImageInfo;
use image::DynamicImage;
use vstd::prelude::*;

verus! {

/// What was found on the clipboard.
pub enum ClipboardReading {
    /// The platform has no clipboard for images.
    Unsupported,
    /// The clipboard could not be opened, with the reason.
    Unavailable(String),
    /// The first file on the clipboard that opens as an image.
    FileImage(DynamicImage),
    /// No such file and no image data, with the reason.
    NoImage(String),
    /// Image data: four samples for a pixel, row by row.
    Pixels { width: usize, height: usize, rgba: Vec<u8> },
}

/// The description of a PNG file of a size.
pub open spec fn png_info(size: (u32, u32)) -> PastedImageInfo {
    PastedImageInfo { width: size.0, height: size.1, encoded_format: EncodedImageFormat::Png }
}

/// The outcome of writing a PNG file: the file with its description, or the reason.
pub open spec fn png_outcome(encoded: Result<Seq<u8>, Seq<char>>, size: (u32, u32)) -> Result<
    (Seq<u8>, PastedImageInfo),
    PasteErrorView,
> {
    match encoded {
        Ok(file) => Ok((file, png_info(size))),
        Err(detail) => Err(PasteErrorView { kind: PasteErrorKind::EncodeFailed, detail }),
    }
}

/// The error of an image whose buffer does not fit its size.
pub open spec fn invalid_buffer() -> PasteErrorView {
    PasteErrorView { kind: PasteErrorKind::EncodeFailed, detail: "invalid RGBA buffer"@ }
}

/// The outcome of writing an image as a PNG file.
pub open spec fn png_of(image: DynamicImage) -> Result<(Seq<u8>, PastedImageInfo), PasteErrorView> {
    if images::fits_size(image) {
        png_outcome(
            images::png_file(images::image_size(image), images::image_pixels(image)),
            images::image_size(image),
        )
    } else {
        Err(invalid_buffer())
    }
}

/// The PNG file of what was found on the clipboard, or why there is none. Sizes
/// of image data count modulo 2 to the 32. Samples behind those of the image do
/// not count.
pub open spec fn captured(reading: ClipboardReading) -> Result<
    (Seq<u8>, PastedImageInfo),
    PasteErrorView,
> {
    match reading {
        ClipboardReading::Unsupported => Err(
            PasteErrorView {
                kind: PasteErrorKind::ClipboardUnavailable,
                detail: "clipboard image paste is unsupported on Android"@,
            },
        ),
        ClipboardReading::Unavailable(reason) => Err(
            PasteErrorView { kind: PasteErrorKind::ClipboardUnavailable, detail: reason@ },
        ),
        ClipboardReading::FileImage(image) => png_of(image),
        ClipboardReading::NoImage(reason) => Err(
            PasteErrorView { kind: PasteErrorKind::NoImage, detail: reason@ },
        ),
        ClipboardReading::Pixels { width, height, rgba } => {
            let size = (width as u32, height as u32);
            let needed = 4 * size.0 * size.1;
            if 4 * size.0 <= usize::MAX && needed <= rgba@.len() {
                png_outcome(
                    images::png_file(
                        size,
                        images::rgba_pixels(size.0, size.1, rgba@.take(needed)),
                    ),
                    size,
                )
            } else {
                Err(invalid_buffer())
            }
        },
    }
}

/// The contents of a capture.
pub open spec fn capture_view(r: Result<(Vec<u8>, PastedImageInfo), PasteImageError>) -> Result<
    (Seq<u8>, PastedImageInfo),
    PasteErrorView,
> {
    match r {
        Ok((file, info)) => Ok((file@, info)),
        Err(e) => Err(e@),
    }
}

/// The contents of the outcome of an encoder.
pub open spec fn encoded_view(r: Result<Vec<u8>, String>) -> Result<Seq<u8>, Seq<char>> {
    match r {
        Ok(file) => Ok(file@),
        Err(e) => Err(e@),
    }
}

/// Turns the outcome of the PNG encoder into that of a capture.
pub fn finish_png(encoded: Result<Vec<u8>, String>, width: u32, height: u32) -> (r: Result<
    (Vec<u8>, PastedImageInfo),
    PasteImageError,
>)
    ensures
        capture_view(r) == png_outcome(encoded_view(encoded), (width, height)),
{
    match encoded {
        Ok(file) => Ok(
            (file, PastedImageInfo { width, height, encoded_format: EncodedImageFormat::Png }),
        ),
        Err(detail) => Err(PasteImageError::EncodeFailed(detail)),
    }
}

/// The PNG file of an image.
fn image_to_png(image: &DynamicImage) -> (r: Result<(Vec<u8>, PastedImageInfo), PasteImageError>)
    ensures
        capture_view(r) == png_of(*image),
{
    let width: u32 = images::width_of(image);
    let height: u32 = images::height_of(image);
    let pixel: u8 = images::pixel_bytes_of(image);
    let pixels: u64 = product(width, height);
    let needed: u128 = wide_product(pixels, pixel);
    if images::buffer_len_of(image) as u128 == needed {
        finish_png(images::encode_png(image), width, height)
    } else {
        Err(PasteImageError::EncodeFailed("invalid RGBA buffer".to_string()))
    }
}

/// The number of pixels in a rectangle.
fn product(width: u32, height: u32) -> (r: u64)
    ensures
        r == width * height,
{
    assert(0 <= width * height <= 0xffff_ffff * 0xffff_ffff) by (nonlinear_arith)
        requires
            0 <= width <= 0xffff_ffff,
            0 <= height <= 0xffff_ffff,
    ;
    width as u64 * height as u64
}

/// The number of bytes that pixels take.
fn wide_product(pixels: u64, pixel: u8) -> (r: u128)
    ensures
        r == pixels * pixel,
{
    assert(0 <= pixels * pixel <= 0xffff_ffff_ffff_ffff * 0xff) by (nonlinear_arith)
        requires
            0 <= pixels <= 0xffff_ffff_ffff_ffff,
            0 <= pixel <= 0xff,
    ;
    pixels as u128 * pixel as u128
}

/// The image on the clipboard as a PNG file with its description.
pub fn paste_image_as_png(reading: ClipboardReading) -> (r: Result<
    (Vec<u8>, PastedImageInfo),
    PasteImageError,
>)
    ensures
        capture_view(r) == captured(reading),
{
    match reading {
        ClipboardReading::Unsupported => Err(
            PasteImageError::ClipboardUnavailable(
                "clipboard image paste is unsupported on Android".to_string(),
            ),
        ),
        ClipboardReading::Unavailable(reason) => Err(
            PasteImageError::ClipboardUnavailable(reason),
        ),
        ClipboardReading::FileImage(image) => image_to_png(&image),
        ClipboardReading::NoImage(reason) => Err(PasteImageError::NoImage(reason)),
        ClipboardReading::Pixels { width, height, rgba } => {
            let w: u32 = #[verifier::truncate] (width as u32);
            let h: u32 = #[verifier::truncate] (height as u32);
            let needed: u128 = wide_product(product(w, h), 4);
            let mut samples: Vec<u8> = rgba;
            proof {
                assert(4 * w * h == w * h * 4) by (nonlinear_arith);
            }
            if needed <= samples.len() as u128 {
                samples.truncate(needed as usize);
            }
            match images::rgba_image(w, h, samples) {
                Some(image) => image_to_png(&image),
                None => Err(PasteImageError::EncodeFailed("invalid RGBA buffer".to_string())),
            }
        },
    }
}

/// A capture that succeeds is a PNG file, and its description has the size of
/// the image that was found.
pub proof fn law_captures_are_png(reading: ClipboardReading)
    requires
        captured(reading) is Ok,
    ensures
        captured(reading)->Ok_0.1.encoded_format == EncodedImageFormat::Png,
        reading matches ClipboardReading::FileImage(image) ==> captured(reading)->Ok_0.1
            == png_info(images::image_size(image)),
        reading matches ClipboardReading::Pixels { width, height, .. } ==> captured(reading)->Ok_0.1
            == png_info((width as u32, height as u32)),
{
}

} // verus!
