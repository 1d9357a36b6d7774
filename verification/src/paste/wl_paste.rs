//! The image that `wl-paste` offers: which type to ask for, and what to keep of
//! the answer.
use crate::outside::images;
use crate::outside::unicode;
use crate::paste::capture;
use crate::paste::image_info::EncodedImageFormat;
use crate::paste::image_info::PastedImageInfo;
use crate::text;
use image::DynamicImage;
use vstd::prelude::*;
use vstd::utf8::*;

verus! {

/// The image types that are asked for, most wanted first.
pub open spec fn image_types() -> Seq<Seq<char>> {
    seq![
        "image/png"@,
        "image/jpeg"@,
        "image/bmp"@,
        "image/x-portable-bitmap"@,
        "image/webp"@,
        "image/avif"@,
        "image/tiff"@,
    ]
}

/// Whether a line of a listing is a type, up to white space around it.
pub open spec fn is_listed(listing: Seq<char>, mime: Seq<char>) -> bool {
    exists|i: int|
        0 <= i < text::pieces(listing, text::is_char('\n')).len() && text::trimmed(
            #[trigger] text::pieces(listing, text::is_char('\n'))[i],
        ) == mime
}

/// The first of some types that a listing has.
pub open spec fn first_listed(types: Seq<Seq<char>>, listing: Seq<char>) -> Option<Seq<char>>
    decreases types.len(),
{
    if types.len() == 0 {
        None
    } else if is_listed(listing, types[0]) {
        Some(types[0])
    } else {
        first_listed(types.skip(1), listing)
    }
}

/// The image types that are asked for, most wanted first.
pub fn wanted_types() -> (r: Vec<&'static str>)
    ensures
        r@.map_values(|s: &'static str| s@) == image_types(),
{
    let types: Vec<&'static str> = vec![
        "image/png",
        "image/jpeg",
        "image/bmp",
        "image/x-portable-bitmap",
        "image/webp",
        "image/avif",
        "image/tiff",
    ];
    assert(types@.map_values(|s: &'static str| s@) =~= image_types());
    types
}

/// The most wanted image type of a listing.
pub fn pick_image_type(listing: &str) -> (r: Option<&'static str>)
    ensures
        match r {
            Some(mime) => first_listed(image_types(), listing@) == Some(mime@),
            None => first_listed(image_types(), listing@) is None,
        },
{
    let types: Vec<&'static str> = wanted_types();
    let lines: Vec<String> = text::split_at_all(listing, '\n');
    let n: usize = types.len();
    let ghost all = image_types();
    let mut t: usize = 0;
    assert(all.skip(0) =~= all);
    while t < n
        invariant
            n == types@.len(),
            n == all.len(),
            t <= n,
            all == image_types(),
            types@.map_values(|s: &'static str| s@) == all,
            text::texts(lines@) == text::pieces(listing@, text::is_char('\n')),
            first_listed(all, listing@) == first_listed(all.skip(t as int), listing@),
        decreases n - t,
    {
        let mime: &'static str = types[t];
        proof {
            assert(types@.map_values(|s: &'static str| s@)[t as int] == mime@);
            assert(all.skip(t as int)[0] == mime@);
            assert(all.skip(t as int).skip(1) =~= all.skip(t + 1));
        }
        let mut i: usize = 0;
        while i < lines.len()
            invariant
                i <= lines@.len(),
                text::texts(lines@) == text::pieces(listing@, text::is_char('\n')),
                forall|k: int| 0 <= k < i ==> text::trimmed((#[trigger] lines@[k])@) != mime@,
                t < n,
                n == all.len(),
                all.skip(t as int)[0] == mime@,
                first_listed(all, listing@) == first_listed(all.skip(t as int), listing@),
                all == image_types(),
            decreases lines@.len() - i,
        {
            if text::same_text(text::trim(lines[i].as_str()), mime) {
                proof {
                    assert(text::texts(lines@)[i as int] == lines@[i as int]@);
                    assert(is_listed(listing@, mime@));
                }
                return Some(mime);
            }
            i += 1;
        }
        proof {
            if is_listed(listing@, mime@) {
                let k = choose|k: int|
                    0 <= k < text::pieces(listing@, text::is_char('\n')).len() && text::trimmed(
                        #[trigger] text::pieces(listing@, text::is_char('\n'))[k],
                    ) == mime@;
                assert(text::texts(lines@)[k] == lines@[k]@);
            }
        }
        t += 1;
    }
    None
}

/// The type to ask for, from the exit and the output of the listing command.
pub fn listing_choice(success: bool, output: &[u8]) -> (r: Option<&'static str>)
    ensures
        match r {
            Some(mime) => success && first_listed(image_types(), unicode::lossy_text(output@))
                == Some(mime@),
            None => !success || first_listed(image_types(), unicode::lossy_text(output@)) is None,
        },
        valid_utf8(output@) && success ==> match r {
            Some(mime) => first_listed(image_types(), decode_utf8(output@)) == Some(mime@),
            None => first_listed(image_types(), decode_utf8(output@)) is None,
        },
{
    if !success {
        return None;
    }
    let listing: String = unicode::decode_lossy(output);
    pick_image_type(listing.as_str())
}

/// The image payload, from the exit and the output of the paste command.
pub fn paste_payload(success: bool, output: Vec<u8>) -> (r: Option<Vec<u8>>)
    ensures
        r == if success {
            Some(output)
        } else {
            None
        },
{
    if success {
        Some(output)
    } else {
        None
    }
}

/// What is kept of a payload: a PNG file where it could be made, and else the
/// payload as it came, of no known size.
pub open spec fn kept_payload(
    payload: Seq<u8>,
    png: Option<(Seq<u8>, (u32, u32))>,
) -> (Seq<u8>, PastedImageInfo) {
    match png {
        Some((file, size)) => (file, capture::png_info(size)),
        None => (
            payload,
            PastedImageInfo { width: 0, height: 0, encoded_format: EncodedImageFormat::Other },
        ),
    }
}

/// The PNG file of a payload, where it can be read and written again.
pub open spec fn payload_png(payload: Seq<u8>) -> Option<(Seq<u8>, (u32, u32))> {
    match images::guessed_format(payload) {
        Some(format) => match images::decoded(payload, format) {
            Some((size, pixels)) => match images::png_file(size, pixels) {
                Ok(file) => Some((file, size)),
                Err(_) => None,
            },
            None => None,
        },
        None => None,
    }
}

/// The contents of a PNG file that may be missing.
pub open spec fn png_view(png: Option<(Vec<u8>, u32, u32)>) -> Option<(Seq<u8>, (u32, u32))> {
    match png {
        Some((file, width, height)) => Some((file@, (width, height))),
        None => None,
    }
}

/// What is kept of a payload, given its PNG file if there is one.
pub fn keep_payload(payload: Vec<u8>, png: Option<(Vec<u8>, u32, u32)>) -> (r: (
    Vec<u8>,
    PastedImageInfo,
))
    ensures
        (r.0@, r.1) == kept_payload(payload@, png_view(png)),
{
    match png {
        Some((file, width, height)) => (
            file,
            PastedImageInfo { width, height, encoded_format: EncodedImageFormat::Png },
        ),
        None => (
            payload,
            PastedImageInfo { width: 0, height: 0, encoded_format: EncodedImageFormat::Other },
        ),
    }
}

/// A payload as a PNG file, or as it came where it cannot be read or written again.
pub fn normalize_payload(payload: Vec<u8>) -> (r: (Vec<u8>, PastedImageInfo))
    ensures
        (r.0@, r.1) == kept_payload(payload@, payload_png(payload@)),
{
    let decoded: Option<DynamicImage> = match images::guess_format(payload.as_slice()) {
        Some(format) => images::decode_image(payload.as_slice(), format),
        None => None,
    };
    let png: Option<(Vec<u8>, u32, u32)> = match decoded {
        Some(image) => match images::encode_png(&image) {
            Ok(file) => Some((file, images::width_of(&image), images::height_of(&image))),
            Err(_) => None,
        },
        None => None,
    };
    assert(png_view(png) == payload_png(payload@));
    keep_payload(payload, png)
}

/// A pick is a wanted type that the listing has, and no more wanted type is there.
pub proof fn law_pick_is_the_most_wanted(types: Seq<Seq<char>>, listing: Seq<char>)
    ensures
        match first_listed(types, listing) {
            Some(mime) => exists|k: int|
                0 <= k < types.len() && #[trigger] types[k] == mime && is_listed(listing, mime)
                    && forall|j: int| 0 <= j < k ==> !is_listed(listing, #[trigger] types[j]),
            None => forall|j: int| 0 <= j < types.len() ==> !is_listed(listing, #[trigger] types[j]),
        },
    decreases types.len(),
{
    if types.len() > 0 {
        if is_listed(listing, types[0]) {
            assert(types[0] == first_listed(types, listing)->0);
        } else {
            let rest = types.skip(1);
            law_pick_is_the_most_wanted(rest, listing);
            match first_listed(types, listing) {
                Some(mime) => {
                    let k = choose|k: int|
                        0 <= k < rest.len() && #[trigger] rest[k] == mime && is_listed(
                            listing,
                            mime,
                        ) && forall|j: int| 0 <= j < k ==> !is_listed(listing, #[trigger] rest[j]);
                    assert(types[k + 1] == mime);
                    assert forall|j: int| 0 <= j < k + 1 implies !is_listed(
                        listing,
                        #[trigger] types[j],
                    ) by {
                        if j > 0 {
                            assert(types[j] == rest[j - 1]);
                        }
                    }
                },
                None => {
                    assert forall|j: int| 0 <= j < types.len() implies !is_listed(
                        listing,
                        #[trigger] types[j],
                    ) by {
                        if j > 0 {
                            assert(types[j] == rest[j - 1]);
                        }
                    }
                },
            }
        }
    }
}

} // verus!
