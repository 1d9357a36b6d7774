//! What is said of a pasted image: its format, its size, and why there is none.
use crate::path;
use crate::path::LocalPath;
use vstd::prelude::*;

verus! {

/// Why an image could not be pasted.
#[derive(Debug)]
pub enum PasteImageError {
    ClipboardUnavailable(String),
    NoImage(String),
    EncodeFailed(String),
    IoError(String),
}

/// The reasons without their details.
pub enum PasteErrorKind {
    ClipboardUnavailable,
    NoImage,
    EncodeFailed,
    IoError,
}

/// A reason with its detail.
pub struct PasteErrorView {
    pub kind: PasteErrorKind,
    pub detail: Seq<char>,
}

impl View for PasteImageError {
    type V = PasteErrorView;

    open spec fn view(&self) -> PasteErrorView {
        match self {
            PasteImageError::ClipboardUnavailable(s) => PasteErrorView {
                kind: PasteErrorKind::ClipboardUnavailable,
                detail: s@,
            },
            PasteImageError::NoImage(s) => PasteErrorView {
                kind: PasteErrorKind::NoImage,
                detail: s@,
            },
            PasteImageError::EncodeFailed(s) => PasteErrorView {
                kind: PasteErrorKind::EncodeFailed,
                detail: s@,
            },
            PasteImageError::IoError(s) => PasteErrorView {
                kind: PasteErrorKind::IoError,
                detail: s@,
            },
        }
    }
}

impl Clone for PasteImageError {
    fn clone(&self) -> (r: Self)
        ensures
            r@ == self@,
    {
        match self {
            PasteImageError::ClipboardUnavailable(s) => PasteImageError::ClipboardUnavailable(
                s.clone(),
            ),
            PasteImageError::NoImage(s) => PasteImageError::NoImage(s.clone()),
            PasteImageError::EncodeFailed(s) => PasteImageError::EncodeFailed(s.clone()),
            PasteImageError::IoError(s) => PasteImageError::IoError(s.clone()),
        }
    }
}

/// The sentence that a kind of reason starts with.
pub open spec fn error_heading(kind: PasteErrorKind) -> Seq<char> {
    match kind {
        PasteErrorKind::ClipboardUnavailable => "clipboard unavailable: "@,
        PasteErrorKind::NoImage => "no image on clipboard: "@,
        PasteErrorKind::EncodeFailed => "could not encode image: "@,
        PasteErrorKind::IoError => "io error: "@,
    }
}

impl PasteImageError {
    /// The error as a sentence.
    pub fn message(&self) -> (r: String)
        ensures
            r@ == error_heading(self@.kind) + self@.detail,
    {
        let (heading, detail): (&str, &String) = match self {
            PasteImageError::ClipboardUnavailable(s) => ("clipboard unavailable: ", s),
            PasteImageError::NoImage(s) => ("no image on clipboard: ", s),
            PasteImageError::EncodeFailed(s) => ("could not encode image: ", s),
            PasteImageError::IoError(s) => ("io error: ", s),
        };
        let mut out: String = heading.to_string();
        out.append(detail.as_str());
        out
    }
}

/// The format of an encoded image.
#[derive(Debug, Clone, Copy, PartialEq, Eq, Structural)]
pub enum EncodedImageFormat {
    Png,
    Jpeg,
    Other,
}

/// The label of a format.
pub open spec fn format_label(format: EncodedImageFormat) -> Seq<char> {
    match format {
        EncodedImageFormat::Png => "PNG"@,
        EncodedImageFormat::Jpeg => "JPEG"@,
        EncodedImageFormat::Other => "IMG"@,
    }
}

impl EncodedImageFormat {
    /// A short label for the format.
    pub fn label(self) -> (r: &'static str)
        ensures
            r@ == format_label(self),
    {
        match self {
            EncodedImageFormat::Png => "PNG",
            EncodedImageFormat::Jpeg => "JPEG",
            EncodedImageFormat::Other => "IMG",
        }
    }
}

/// The size and the format of a pasted image.
#[derive(Debug, Clone, Copy)]
pub struct PastedImageInfo {
    pub width: u32,
    pub height: u32,
    pub encoded_format: EncodedImageFormat,
}

/// The lower-case form of an ASCII letter byte; other bytes stay as they are.
pub open spec fn lower_byte(b: u8) -> u8 {
    if 65 <= b <= 90 {
        (b + 32) as u8
    } else {
        b
    }
}

/// Whether two byte strings are the same up to the case of ASCII letters, the
/// second being in lower case.
pub open spec fn lowers_to(name: Seq<u8>, lower: Seq<u8>) -> bool {
    name.map_values(|b: u8| lower_byte(b)) == lower
}

/// The bytes of `png`.
pub open spec fn png_bytes() -> Seq<u8> {
    seq![0x70u8, 0x6eu8, 0x67u8]
}

/// The bytes of `jpg`.
pub open spec fn jpg_bytes() -> Seq<u8> {
    seq![0x6au8, 0x70u8, 0x67u8]
}

/// The bytes of `jpeg`.
pub open spec fn jpeg_bytes() -> Seq<u8> {
    seq![0x6au8, 0x70u8, 0x65u8, 0x67u8]
}

/// The format that the extension of a path tells.
pub open spec fn format_of_path(p: Seq<u8>) -> EncodedImageFormat {
    match path::extension(p) {
        Some(e) => if lowers_to(e, png_bytes()) {
            EncodedImageFormat::Png
        } else if lowers_to(e, jpg_bytes()) || lowers_to(e, jpeg_bytes()) {
            EncodedImageFormat::Jpeg
        } else {
            EncodedImageFormat::Other
        },
        None => EncodedImageFormat::Other,
    }
}

/// A byte string with its ASCII capitals lowered.
fn lowered(s: &[u8]) -> (r: Vec<u8>)
    ensures
        r@ == s@.map_values(|b: u8| lower_byte(b)),
{
    let mut out: Vec<u8> = Vec::new();
    let mut i: usize = 0;
    while i < s.len()
        invariant
            i <= s@.len(),
            out@.len() == i,
            forall|k: int| 0 <= k < i ==> out@[k] == lower_byte(s@[k]),
        decreases s@.len() - i,
    {
        let b: u8 = s[i];
        if 65 <= b && b <= 90 {
            out.push(b + 32);
        } else {
            out.push(b);
        }
        i += 1;
    }
    assert(out@ =~= s@.map_values(|b: u8| lower_byte(b)));
    out
}

/// The image format that the extension of a path tells.
pub fn pasted_image_format(path: &LocalPath) -> (r: EncodedImageFormat)
    ensures
        r == format_of_path(path@),
{
    match path.extension() {
        Some(e) => {
            let low: Vec<u8> = lowered(e.as_slice());
            let png: Vec<u8> = vec![0x70, 0x6e, 0x67];
            let jpg: Vec<u8> = vec![0x6a, 0x70, 0x67];
            let jpeg: Vec<u8> = vec![0x6a, 0x70, 0x65, 0x67];
            proof {
                assert(png@ =~= png_bytes());
                assert(jpg@ =~= jpg_bytes());
                assert(jpeg@ =~= jpeg_bytes());
            }
            if path::same_bytes(low.as_slice(), png.as_slice()) {
                EncodedImageFormat::Png
            } else if path::same_bytes(low.as_slice(), jpg.as_slice()) || path::same_bytes(
                low.as_slice(),
                jpeg.as_slice(),
            ) {
                EncodedImageFormat::Jpeg
            } else {
                EncodedImageFormat::Other
            }
        },
        None => EncodedImageFormat::Other,
    }
}

} // verus!
