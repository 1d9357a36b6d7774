//! What pasting means, told by how pasted texts are put together.
use crate::outside::images;
use crate::outside::shell;
use crate::outside::unicode;
use crate::paste::capture;
use crate::paste::capture::ClipboardReading;
use crate::paste::fallback;
use crate::paste::fallback::PasteEventView;
use crate::paste::fallback::PasteHost;
use crate::paste::fallback::PasteView;
use crate::paste::image_info;
use crate::paste::image_info::EncodedImageFormat;
use crate::paste::image_info::PasteErrorKind;
use crate::paste::image_info::PasteErrorView;
use crate::paste::image_info::PastedImageInfo;
use crate::paste::pasted_path;
use crate::paste::query;
use crate::paste::reading;
use crate::paste::reading::CaptureEvent;
use crate::paste::reading::CaptureView;
use crate::paste::reading::ClipboardImage;
use crate::paste::windows_path;
use crate::paste::wl_paste;
use crate::paste::wsl;
use crate::text;
use crate::text_laws;
use image::DynamicImage;
use vstd::prelude::*;
use vstd::utf8::*;

verus! {

/// A query is the words of a text with single spaces between them: one more word
/// comes behind a space, white space by itself adds nothing, and a text of white
/// space gives none.
pub proof fn law_queries_are_put_together(s: Seq<char>, space: char, word: Seq<char>)
    requires
        text::is_space(space),
        word.len() > 0,
        forall|i: int| 0 <= i < word.len() ==> !text::is_space(#[trigger] word[i]),
    ensures
        query::search_query(s) is Some ==> query::search_query(s.push(space) + word) == Some(
            query::search_query(s)->0 + seq![' '] + word,
        ),
        query::search_query(s) is None ==> query::search_query(s.push(space) + word) == Some(word),
        query::search_query(s.push(space)) == query::search_query(s),
        query::search_query(word) == Some(word),
        query::search_query(Seq::empty()) is None,
{
    reveal_strlit(" ");
    text_laws::law_words(s, space, word);
    let words = text::words(s);
    assert(words.push(word).drop_last() =~= words);
    assert(words.push(word).last() == word);
    assert(" "@ =~= seq![' ']);
    if words.len() == 0 {
        assert(words.push(word)[0] == word);
    }
    assert(seq![word][0] == word);
}

/// Quotes come off a text that has them around it, double or single ones, one pair
/// only. Any other text stays.
pub proof fn law_quotes_come_off(s: Seq<char>, quote: char)
    ensures
        quote == '"' || quote == '\'' ==> pasted_path::unquoted(seq![quote] + s + seq![quote]) == s,
        s.len() < 2 || s[0] != s.last() || (s[0] != '"' && s[0] != '\'') ==> pasted_path::unquoted(
            s,
        ) == s,
{
    let whole = seq![quote] + s + seq![quote];
    assert(whole[0] == quote && whole.last() == quote);
    assert(whole.subrange(1, whole.len() - 1) =~= s);
}

/// Which reading of a text is its path: that as a `file` URL comes first, whatever
/// the others are; then that as a Windows path; then the only word, by itself a
/// Windows path or just as it is. Several words, or none, give no path.
pub proof fn law_readings_of_a_path(
    body: Seq<char>,
    wsl: bool,
    url: Option<Seq<u8>>,
    words: Seq<Seq<char>>,
    word: Seq<char>,
)
    ensures
        pasted_path::chosen_path(body, wsl, Some(url), words) == url,
        windows_path::windows_path(body, wsl) matches Some(p) ==> pasted_path::chosen_path(
            body,
            wsl,
            None,
            words,
        ) == Some(encode_utf8(p)),
        windows_path::windows_path(body, wsl) is None && words.len() != 1
            ==> pasted_path::chosen_path(body, wsl, None, words) is None,
        windows_path::windows_path(body, wsl) is None && windows_path::windows_path(
            word,
            wsl,
        ) is None ==> pasted_path::chosen_path(body, wsl, None, seq![word]) == Some(
            encode_utf8(word),
        ),
        windows_path::windows_path(body, wsl) is None ==> (windows_path::windows_path(
            word,
            wsl,
        ) matches Some(p) ==> pasted_path::chosen_path(body, wsl, None, seq![word]) == Some(
            encode_utf8(p),
        )),
{
}

/// Whether a character is an ASCII letter.
pub open spec fn is_letter(c: char) -> bool {
    ('a' <= c && c <= 'z') || ('A' <= c && c <= 'Z')
}

/// Which texts are Windows paths: a drive letter, a colon and a slash of either kind
/// at the start, or two backslashes. Outside WSL they stay as they are, and those
/// without a drive everywhere.
pub proof fn law_windows_paths(s: Seq<char>, wsl: bool)
    ensures
        ({
            let drive = s.len() >= 3 && is_letter(s[0]) && s[1] == ':' && (s[2] == '\\' || s[2]
                == '/');
            let share = s.len() >= 2 && s[0] == '\\' && s[1] == '\\';
            &&& windows_path::windows_path(s, wsl) is Some <==> drive || share
            &&& drive && !wsl ==> windows_path::windows_path(s, wsl) == Some(s)
            &&& share ==> windows_path::windows_path(s, wsl) == Some(s)
            &&& drive && wsl ==> windows_path::windows_path(s, wsl) == windows_path::wsl_place(s)
            &&& windows_path::wsl_place(s) is Some <==> s.len() >= 2 && is_letter(s[0]) && s[1]
                == ':'
        }),
{
}

/// The place of a Windows path under WSL: that of its drive, by the small letter,
/// below `/mnt`; a slash of either kind and a name behind a path lead one step
/// further down, and a slash by itself leads nowhere else.
pub proof fn law_places_under_wsl(letter: char, s: Seq<char>, slash: char, name: Seq<char>)
    requires
        is_letter(letter),
        slash == '\\' || slash == '/',
        s.len() >= 2 && is_letter(s[0]) && s[1] == ':',
        name.len() > 0,
        forall|i: int| 0 <= i < name.len() ==> #[trigger] name[i] != '\\' && name[i] != '/',
    ensures
        ({
            let drive = windows_path::wsl_place(seq![letter, ':']);
            &&& drive is Some
            &&& drive->0.len() == 6
            &&& drive->0.take(5) == "/mnt/"@
            &&& 'a' <= drive->0[5] <= 'z'
            &&& 'a' <= letter ==> drive->0[5] == letter
            &&& letter <= 'Z' ==> drive->0[5] as int == letter as int + 32
        }),
        windows_path::wsl_place(s.push(slash) + name) == Some(
            windows_path::wsl_place(s)->0 + seq!['/'] + name,
        ),
        windows_path::wsl_place(s.push(slash)) == windows_path::wsl_place(s),
        windows_path::wsl_place(seq![letter, ':'] + name) == Some(
            windows_path::wsl_place(seq![letter, ':'])->0 + seq!['/'] + name,
        ),
{
    reveal_strlit("/mnt/");
    let sep = windows_path::is_windows_separator();
    assert(text_laws::unbroken(name, sep));
    text_laws::law_nonempty_pieces(s.skip(2), slash, name, sep);
    let longer = s.push(slash) + name;
    assert(longer.skip(2) =~= s.skip(2).push(slash) + name);
    assert(longer[0] == s[0] && longer[1] == s[1]);
    assert(s.push(slash).skip(2) =~= s.skip(2).push(slash));
    assert(s.push(slash)[0] == s[0] && s.push(slash)[1] == s[1]);
    let drive = seq![letter, ':'];
    assert(drive.skip(2) =~= Seq::<char>::empty());
    assert((drive + name).skip(2) =~= name);
    assert((drive + name)[0] == letter && (drive + name)[1] == ':');
    let mount = windows_path::drive_mount(letter);
    assert(mount.take(5) =~= "/mnt/"@);
    lemma_one_more_component(
        windows_path::drive_mount(s[0]),
        text::nonempty_pieces(s.skip(2), sep),
        name,
    );
    lemma_one_more_component(mount, Seq::empty(), name);
    assert(Seq::<Seq<char>>::empty().push(name) =~= seq![name]);
}

proof fn lemma_one_more_component(base: Seq<char>, parts: Seq<Seq<char>>, name: Seq<char>)
    ensures
        windows_path::with_components(base, parts.push(name)) == windows_path::with_components(
            base,
            parts,
        ) + seq!['/'] + name,
{
    assert(parts.push(name).drop_last() =~= parts);
    assert(parts.push(name).last() == name);
    assert(windows_path::with_components(base, parts).push('/') + name
        =~= windows_path::with_components(base, parts) + seq!['/'] + name);
}

/// A type is listed where it is a line of the listing, up to white space around it.
pub proof fn law_listed_types(listing: Seq<char>, line: Seq<char>, mime: Seq<char>)
    requires
        !line.contains('\n'),
    ensures
        wl_paste::is_listed(line, mime) <==> text::trimmed(line) == mime,
        wl_paste::is_listed(listing.push('\n') + line, mime) <==> wl_paste::is_listed(listing, mime)
            || text::trimmed(line) == mime,
{
    let sep = text::is_char('\n');
    assert forall|i: int| 0 <= i < line.len() implies !sep(#[trigger] line[i]) by {
        assert(line.contains(line[i]));
    }
    text_laws::law_pieces(listing, '\n', line, sep);
    let lines = text::pieces(listing, sep);
    let more = text::pieces(listing.push('\n') + line, sep);
    let n = lines.len() as int;
    assert(more[n] == line);
    assert(text::pieces(line, sep)[0] == line);
    if wl_paste::is_listed(listing, mime) {
        let i = choose|i: int| 0 <= i < lines.len() && text::trimmed(#[trigger] lines[i]) == mime;
        assert(more[i] == lines[i]);
    }
    if wl_paste::is_listed(listing.push('\n') + line, mime) {
        let i = choose|i: int| 0 <= i < more.len() && text::trimmed(#[trigger] more[i]) == mime;
        if i < n {
            assert(lines[i] == more[i]);
        }
    }
}

/// Which type is asked for: PNG where it is listed, else JPEG, then the bitmaps,
/// WebP, AVIF and TIFF, and none where none of them is.
pub proof fn law_types_by_wish(listing: Seq<char>)
    ensures
        wl_paste::first_listed(wl_paste::image_types(), listing) == (if wl_paste::is_listed(
            listing,
            "image/png"@,
        ) {
            Some("image/png"@)
        } else if wl_paste::is_listed(listing, "image/jpeg"@) {
            Some("image/jpeg"@)
        } else if wl_paste::is_listed(listing, "image/bmp"@) {
            Some("image/bmp"@)
        } else if wl_paste::is_listed(listing, "image/x-portable-bitmap"@) {
            Some("image/x-portable-bitmap"@)
        } else if wl_paste::is_listed(listing, "image/webp"@) {
            Some("image/webp"@)
        } else if wl_paste::is_listed(listing, "image/avif"@) {
            Some("image/avif"@)
        } else if wl_paste::is_listed(listing, "image/tiff"@) {
            Some("image/tiff"@)
        } else {
            None
        }),
{
    let all = wl_paste::image_types();
    assert(all.skip(1).skip(1) =~= all.skip(2));
    assert(all.skip(2).skip(1) =~= all.skip(3));
    assert(all.skip(3).skip(1) =~= all.skip(4));
    assert(all.skip(4).skip(1) =~= all.skip(5));
    assert(all.skip(5).skip(1) =~= all.skip(6));
    assert(all.skip(6).skip(1) =~= Seq::<Seq<char>>::empty());
    reveal_with_fuel(wl_paste::first_listed, 8);
}

/// A payload is kept as the PNG file that could be made of it, with its size, and
/// else as it came, of no known size and format.
pub proof fn law_payloads_are_kept(payload: Seq<u8>, file: Seq<u8>, width: u32, height: u32)
    ensures
        ({
            let (bytes, info) = wl_paste::kept_payload(payload, Some((file, (width, height))));
            bytes == file && info.width == width && info.height == height && info.encoded_format
                == EncodedImageFormat::Png
        }),
        ({
            let (bytes, info) = wl_paste::kept_payload(payload, None);
            bytes == payload && info.width == 0 && info.height == 0 && info.encoded_format
                == EncodedImageFormat::Other
        }),
{
}

/// The PNG file of a payload is that of the image that it decodes to, by the format
/// that its bytes tell; where one of the steps fails, there is none.
pub proof fn law_payloads_are_decoded_and_encoded(payload: Seq<u8>)
    ensures
        images::guessed_format(payload) is None ==> wl_paste::payload_png(payload) is None,
        images::guessed_format(payload) matches Some(format) ==> (images::decoded(
            payload,
            format,
        ) is None ==> wl_paste::payload_png(payload) is None),
        images::guessed_format(payload) matches Some(format) ==> (images::decoded(
            payload,
            format,
        ) matches Some((size, pixels)) ==> (images::png_file(size, pixels) is Err
            ==> wl_paste::payload_png(payload) is None)),
        images::guessed_format(payload) matches Some(format) ==> (images::decoded(
            payload,
            format,
        ) matches Some((size, pixels)) ==> (images::png_file(size, pixels) matches Ok(file)
            ==> wl_paste::payload_png(payload) == Some((file, size)))),
{
}

/// A machine is taken for WSL where its kernel version, in small letters, has
/// `microsoft` or `wsl` in it, and where either of the variables is set.
pub proof fn law_signs_of_wsl(
    before: Seq<char>,
    behind: Seq<char>,
    version: Seq<char>,
    has_distro_name: bool,
    has_interop: bool,
)
    ensures
        unicode::lowercase(version) == before + "microsoft"@ + behind ==> wsl::looks_like_wsl(
            Some(version),
            has_distro_name,
            has_interop,
        ),
        unicode::lowercase(version) == before + "wsl"@ + behind ==> wsl::looks_like_wsl(
            Some(version),
            has_distro_name,
            has_interop,
        ),
        has_distro_name || has_interop ==> wsl::looks_like_wsl(
            Some(version),
            has_distro_name,
            has_interop,
        ),
        wsl::looks_like_wsl(None, has_distro_name, has_interop) == (has_distro_name || has_interop),
        wsl::looks_like_wsl(Some(version), false, false) ==> (exists|a: Seq<char>, b: Seq<char>|
            unicode::lowercase(version) == #[trigger] (a + "microsoft"@ + b)) || (exists|
            a: Seq<char>,
            b: Seq<char>,
        |
            unicode::lowercase(version) == #[trigger] (a + "wsl"@ + b)),
{
    let lowered = unicode::lowercase(version);
    text_laws::law_occurrence("microsoft"@, lowered);
    text_laws::law_occurrence("wsl"@, lowered);
}

/// What a command printed is a path, without the white space around it, where the
/// command succeeded and printed something.
pub proof fn law_printed_paths(before: Seq<char>, path: Seq<char>, behind: Seq<char>)
    requires
        text_laws::blank(before),
        text_laws::blank(behind),
        path.len() > 0 ==> !text::is_space(path[0]) && !text::is_space(path.last()),
    ensures
        path.len() > 0 ==> wsl::printed_path(true, before + path + behind) == Some(path),
        path.len() == 0 ==> wsl::printed_path(true, before + path + behind) is None,
        wsl::printed_path(false, before + path + behind) is None,
{
    text_laws::law_trimming(before, path, behind);
}

/// The errors of a clipboard that gives no image, by what was found.
pub proof fn law_captures_without_an_image(reason: String)
    ensures
        capture::captured(ClipboardReading::Unsupported) == Err::<
            (Seq<u8>, PastedImageInfo),
            PasteErrorView,
        >(
            PasteErrorView {
                kind: PasteErrorKind::ClipboardUnavailable,
                detail: "clipboard image paste is unsupported on Android"@,
            },
        ),
        capture::captured(ClipboardReading::Unavailable(reason)) == Err::<
            (Seq<u8>, PastedImageInfo),
            PasteErrorView,
        >(PasteErrorView { kind: PasteErrorKind::ClipboardUnavailable, detail: reason@ }),
        capture::captured(ClipboardReading::NoImage(reason)) == Err::<
            (Seq<u8>, PastedImageInfo),
            PasteErrorView,
        >(PasteErrorView { kind: PasteErrorKind::NoImage, detail: reason@ }),
{
}

/// Image data become the PNG file of the image that their first samples make, four
/// for a pixel, and too few of them are refused.
pub proof fn law_image_data_are_encoded(width: usize, height: usize, rgba: Vec<u8>)
    requires
        width <= u32::MAX,
        height <= u32::MAX,
        4 * width <= usize::MAX,
    ensures
        ({
            let found = capture::captured(ClipboardReading::Pixels { width, height, rgba });
            let needed = 4 * width * height;
            let png = images::png_file(
                (width as u32, height as u32),
                images::rgba_pixels(width as u32, height as u32, rgba@.take(needed)),
            );
            &&& rgba@.len() < needed ==> found is Err && found->Err_0.kind
                == PasteErrorKind::EncodeFailed && found->Err_0.detail == "invalid RGBA buffer"@
            &&& rgba@.len() >= needed && png is Ok ==> found is Ok && found->Ok_0.0 == png->Ok_0
                && found->Ok_0.1.width == width && found->Ok_0.1.height == height
            &&& rgba@.len() >= needed && png is Err ==> found is Err && found->Err_0.kind
                == PasteErrorKind::EncodeFailed && found->Err_0.detail == png->Err_0
        }),
{
}

/// The image of a file becomes the PNG file of it.
pub proof fn law_file_images_are_encoded(image: DynamicImage)
    requires
        images::fits_size(image),
    ensures
        ({
            let found = capture::captured(ClipboardReading::FileImage(image));
            let png = images::png_file(images::image_size(image), images::image_pixels(image));
            &&& png is Ok ==> found is Ok && found->Ok_0.0 == png->Ok_0 && found->Ok_0.1.width
                == images::image_size(image).0 && found->Ok_0.1.height == images::image_size(
                image,
            ).1
            &&& png is Err ==> found is Err && found->Err_0.kind == PasteErrorKind::EncodeFailed
                && found->Err_0.detail == png->Err_0
        }),
{
}

/// A capture is saved, and the file that it is saved in is the result; one that
/// cannot be saved fails for that reason.
pub proof fn law_captures_are_saved(
    bytes: Seq<u8>,
    info: PastedImageInfo,
    host: PasteHost,
    path: Seq<u8>,
    reason: Seq<char>,
)
    ensures
        ({
            let state = fallback::after_capture(Ok((bytes, info)), host);
            &&& state == (PasteView::SavingCapture { bytes, info })
            &&& fallback::after_event(state, PasteEventView::Saved(Ok(path)), host) == (
            PasteView::Done { result: Ok((path, info)) })
            &&& fallback::after_event(state, PasteEventView::Saved(Err(reason)), host) == (
            PasteView::Done {
                result: Err(PasteErrorView { kind: PasteErrorKind::IoError, detail: reason }),
            })
        }),
{
}

/// Where to go on without an image: on Linux, in a Wayland session `wl-paste` is
/// asked, else under WSL Windows is; anywhere else the error stands.
pub proof fn law_ways_to_fall_back(error: PasteErrorView, host: PasteHost)
    requires
        error.kind is ClipboardUnavailable || error.kind is NoImage,
    ensures
        ({
            let state = fallback::after_capture(Err(error), host);
            &&& !host.linux ==> state == (PasteView::Done { result: Err(error) })
            &&& host.linux && host.wayland_session ==> state == (PasteView::ListingTypes { error })
            &&& host.linux && !host.wayland_session && host.wsl ==> state == (
            PasteView::DumpingWindows { next: 0, error })
            &&& host.linux && !host.wayland_session && !host.wsl ==> state == (PasteView::Done {
                result: Err(error),
            })
        }),
{
}

/// Whether a state is where the Wayland fallback leads when it gives nothing.
pub open spec fn left_wayland(state: PasteView, error: PasteErrorView, host: PasteHost) -> bool {
    if host.wsl && (error.kind is ClipboardUnavailable || error.kind is NoImage) {
        state == (PasteView::DumpingWindows { next: 0, error })
    } else {
        state == (PasteView::Done { result: Err(error) })
    }
}

/// `wl-paste` is asked for a type that it lists; its image is saved, and the file
/// is the result. Where any of this fails, or there is no image, the next way is
/// gone.
pub proof fn law_wayland_steps(
    error: PasteErrorView,
    host: PasteHost,
    mime: Seq<char>,
    stdout: Seq<u8>,
    image: Seq<u8>,
    info: PastedImageInfo,
    path: Seq<u8>,
    reason: Seq<char>,
)
    ensures
        ({
            let listing = PasteView::ListingTypes { error };
            let pasting = PasteView::PastingType { mime, error };
            let saving = PasteView::SavingPayload { bytes: image, info, error };
            let picked = wl_paste::first_listed(
                wl_paste::image_types(),
                unicode::lossy_text(stdout),
            );
            let listed = fallback::after_event(
                listing,
                PasteEventView::CommandRan(Some((true, stdout))),
                host,
            );
            let pasted = fallback::after_event(
                pasting,
                PasteEventView::CommandRan(Some((true, stdout))),
                host,
            );
            &&& picked is Some ==> listed == (PasteView::PastingType { mime: picked->0, error })
            &&& picked is None ==> left_wayland(listed, error, host)
            &&& left_wayland(
                fallback::after_event(
                    listing,
                    PasteEventView::CommandRan(Some((false, stdout))),
                    host,
                ),
                error,
                host,
            )
            &&& left_wayland(
                fallback::after_event(listing, PasteEventView::CommandRan(None), host),
                error,
                host,
            )
            &&& stdout.len() > 0 ==> pasted == (PasteView::SavingPayload {
                bytes: wl_paste::kept_payload(stdout, wl_paste::payload_png(stdout)).0,
                info: wl_paste::kept_payload(stdout, wl_paste::payload_png(stdout)).1,
                error,
            })
            &&& stdout.len() == 0 ==> left_wayland(pasted, error, host)
            &&& left_wayland(
                fallback::after_event(
                    pasting,
                    PasteEventView::CommandRan(Some((false, stdout))),
                    host,
                ),
                error,
                host,
            )
            &&& left_wayland(
                fallback::after_event(pasting, PasteEventView::CommandRan(None), host),
                error,
                host,
            )
            &&& fallback::after_event(saving, PasteEventView::Saved(Ok(path)), host) == (
            PasteView::Done { result: Ok((path, info)) })
            &&& left_wayland(
                fallback::after_event(saving, PasteEventView::Saved(Err(reason)), host),
                error,
                host,
            )
        }),
{
}

/// Windows is asked by one command after the other, three in all, until one prints
/// a path; the image at its place under WSL is the result, as a PNG of its size.
/// Where there is none the first error stands.
pub proof fn law_windows_steps(
    error: PasteErrorView,
    host: PasteHost,
    next: int,
    ran: Option<(bool, Seq<u8>)>,
    place: Seq<u8>,
    width: u32,
    height: u32,
)
    requires
        0 <= next < 3,
    ensures
        ({
            let dumping = PasteView::DumpingWindows { next, error };
            let reading = PasteView::ReadingSize { path: place, error };
            let after = fallback::after_event(dumping, PasteEventView::CommandRan(ran), host);
            let printed = match ran {
                Some((success, stdout)) => wsl::printed_path(success, unicode::lossy_text(stdout)),
                None => None,
            };
            &&& printed is None && next < 2 ==> after == (PasteView::DumpingWindows {
                next: next + 1,
                error,
            })
            &&& printed is None && next == 2 ==> after == (PasteView::Done { result: Err(error) })
            &&& printed is Some && windows_path::wsl_place(printed->0) is Some ==> after == (
            PasteView::ReadingSize {
                path: encode_utf8(windows_path::wsl_place(printed->0)->0),
                error,
            })
            &&& printed is Some && windows_path::wsl_place(printed->0) is None ==> after == (
            PasteView::Done { result: Err(error) })
            &&& fallback::after_event(reading, PasteEventView::Size(Some((width, height))), host)
                == (PasteView::Done {
                result: Ok(
                    (
                        place,
                        PastedImageInfo {
                            width,
                            height,
                            encoded_format: EncodedImageFormat::Png,
                        },
                    ),
                ),
            })
            &&& fallback::after_event(reading, PasteEventView::Size(None), host) == (
            PasteView::Done { result: Err(error) })
        }),
{
}

/// The command lines: `wl-paste` lists its types, and prints the image of one
/// without a newline behind it; PowerShell, under the names that it may have, runs
/// the script without a profile.
pub proof fn law_command_lines(error: PasteErrorView, mime: Seq<char>, next: int)
    requires
        0 <= next < 3,
    ensures
        fallback::command_words(PasteView::ListingTypes { error }) == Some(
            seq!["wl-paste"@, "--list-types"@],
        ),
        fallback::command_words(PasteView::PastingType { mime, error }) == Some(
            seq!["wl-paste"@, "--no-newline"@, "--type"@, mime],
        ),
        ({
            let words = fallback::command_words(PasteView::DumpingWindows { next, error });
            &&& words is Some && words->0.len() == 4
            &&& words->0[0] == (if next == 0 {
                "powershell.exe"@
            } else if next == 1 {
                "pwsh"@
            } else {
                "powershell"@
            })
            &&& words->0[1] == "-NoProfile"@ && words->0[2] == "-Command"@ && words->0[3]
                == fallback::DUMP_SCRIPT@
        }),
{
}

/// The temporary files: those of captures and of what `wl-paste` printed have names
/// that start differently, and no other state saves one.
pub proof fn law_temporary_files(state: PasteView)
    ensures
        state is SavingCapture ==> fallback::temp_prefix(state) == Some("codex-clipboard-"@),
        state is SavingPayload ==> fallback::temp_prefix(state) == Some(
            "codex-clipboard-wayland-"@,
        ),
        fallback::temp_prefix(state) is Some ==> state is SavingCapture || state is SavingPayload,
{
}

/// What was not asked for changes nothing, and at the end nothing does.
pub proof fn law_unasked_outcomes_change_nothing(
    state: PasteView,
    event: PasteEventView,
    host: PasteHost,
)
    requires
        event is Saved ==> !(state is SavingCapture || state is SavingPayload),
        event is CommandRan ==> !(state is ListingTypes || state is PastingType
            || state is DumpingWindows),
        event is Size ==> !(state is ReadingSize),
    ensures
        fallback::after_event(state, event, host) == state,
{
}

/// What `wl-paste` gave: nothing leaves the error standing, no bytes are an error of
/// their own, and bytes are kept as an image.
pub proof fn law_answers_of_wl_paste(payload: Seq<u8>, error: PasteErrorView)
    ensures
        fallback::wayland_outcome(None, error) is Err && fallback::wayland_outcome(
            None,
            error,
        )->Err_0 == error,
        ({
            let found = fallback::wayland_outcome(Some(payload), error);
            &&& payload.len() == 0 ==> found is Err && found->Err_0.kind == PasteErrorKind::NoImage
                && found->Err_0.detail == "wl-paste returned an empty image payload"@
            &&& payload.len() > 0 ==> found is Ok && found->Ok_0 == wl_paste::kept_payload(
                payload,
                wl_paste::payload_png(payload),
            )
        }),
{
}

/// The texts for people: what an error starts with, and what a format is called.
pub proof fn law_texts_for_people(kind: PasteErrorKind, format: EncodedImageFormat)
    ensures
        kind is ClipboardUnavailable ==> image_info::error_heading(kind)
            == "clipboard unavailable: "@,
        kind is NoImage ==> image_info::error_heading(kind) == "no image on clipboard: "@,
        kind is EncodeFailed ==> image_info::error_heading(kind) == "could not encode image: "@,
        kind is IoError ==> image_info::error_heading(kind) == "io error: "@,
        format is Png ==> image_info::format_label(format) == "PNG"@,
        format is Jpeg ==> image_info::format_label(format) == "JPEG"@,
        format is Other ==> image_info::format_label(format) == "IMG"@,
{
}

/// Image data on the clipboard are taken as they are, with their own width and
/// height, and where there are none the reason is.
pub proof fn law_image_data_are_taken(image: ClipboardImage, reason: String)
    ensures
        ({
            let found = reading::after_capture_event(
                CaptureView::ReadImage,
                CaptureEvent::ImageRead(Ok(image)),
            );
            found == (CaptureView::Captured {
                reading: ClipboardReading::Pixels {
                    width: image.width,
                    height: image.height,
                    rgba: image.rgba,
                },
            })
        }),
        reading::after_capture_event(
            CaptureView::ReadImage,
            CaptureEvent::ImageRead(Err(reason)),
        ) == (CaptureView::Captured { reading: ClipboardReading::NoImage(reason) }),
        reading::after_capture_event(
            CaptureView::OpenClipboard,
            CaptureEvent::ClipboardOpened(Err(reason)),
        ) == (CaptureView::Captured { reading: ClipboardReading::Unavailable(reason) }),
{
}

/// White space around a pasted text makes no difference.
pub proof fn law_white_space_around_a_path(
    before: Seq<char>,
    core: Seq<char>,
    behind: Seq<char>,
    wsl: bool,
)
    requires
        text_laws::blank(before),
        text_laws::blank(behind),
        core.len() > 0 ==> !text::is_space(core[0]) && !text::is_space(core.last()),
    ensures
        pasted_path::pasted_path(before + core + behind, wsl) == pasted_path::pasted_path(core, wsl),
{
    let none = Seq::<char>::empty();
    text_laws::law_trimming(before, core, behind);
    text_laws::law_trimming(none, core, none);
    assert(none + core + none =~= core);
}

/// A text in quotes: the path of a `file` URL in them, or the Windows path, comes out
/// without them; else the quotes are for the shell to read, together with the rest.
pub proof fn law_quoted_texts(s: Seq<char>, quote: char, wsl: bool)
    requires
        quote == '"' || quote == '\'',
    ensures
        ({
            let pasted = seq![quote] + s + seq![quote];
            let found = pasted_path::pasted_path(pasted, wsl);
            let url = pasted_path::file_url(s);
            let place = windows_path::windows_path(s, wsl);
            let words = shell::shell_words(pasted);
            &&& url is Some ==> found == url->0
            &&& url is None && place is Some ==> found == Some(encode_utf8(place->0))
            &&& url is None && place is None && words.len() != 1 ==> found is None
            &&& url is None && place is None && words == seq![s] ==> found == Some(encode_utf8(s))
        }),
{
    let pasted = seq![quote] + s + seq![quote];
    let none = Seq::<char>::empty();
    assert(pasted[0] == quote && pasted.last() == quote);
    text_laws::law_trimming(none, pasted, none);
    assert(none + pasted + none =~= pasted);
    law_quotes_come_off(s, quote);
}

/// A text that no quotes enclose: it is a `file` URL, a Windows path, or one word for
/// the shell.
pub proof fn law_bare_texts(s: Seq<char>, wsl: bool)
    requires
        s.len() > 0 && !text::is_space(s[0]) && !text::is_space(s.last()),
        s[0] != '"' && s[0] != '\'',
    ensures
        ({
            let found = pasted_path::pasted_path(s, wsl);
            let url = pasted_path::file_url(s);
            let place = windows_path::windows_path(s, wsl);
            let words = shell::shell_words(s);
            &&& url is Some ==> found == url->0
            &&& url is None && place is Some ==> found == Some(encode_utf8(place->0))
            &&& url is None && place is None && words.len() != 1 ==> found is None
            &&& url is None && place is None && words.len() == 1 && windows_path::windows_path(
                words[0],
                wsl,
            ) is None ==> found == Some(encode_utf8(words[0]))
        }),
{
    let none = Seq::<char>::empty();
    text_laws::law_trimming(none, s, none);
    assert(none + s + none =~= s);
    law_quotes_come_off(s, '"');
}

} // verus!
