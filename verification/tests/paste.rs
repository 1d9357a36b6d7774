use codex_kit::paste::capture::finish_png;
use codex_kit::paste::capture::paste_image_as_png;
use codex_kit::paste::capture::ClipboardReading;
use codex_kit::paste::fallback::command_line;
use codex_kit::paste::fallback::next_paste_state;
use codex_kit::paste::fallback::paste_image_to_temp_png;
use codex_kit::paste::fallback::temp_file_name;
use codex_kit::paste::fallback::wayland_fallback_applies;
use codex_kit::paste::fallback::wayland_image;
use codex_kit::paste::fallback::wsl_fallback_applies;
use codex_kit::paste::fallback::CommandOutput;
use codex_kit::paste::fallback::PasteEvent;
use codex_kit::paste::fallback::PasteHost;
use codex_kit::paste::fallback::PasteState;
use codex_kit::paste::image_info::pasted_image_format;
use codex_kit::paste::image_info::EncodedImageFormat;
use codex_kit::paste::image_info::PasteImageError;
use codex_kit::paste::image_info::PastedImageInfo;
use codex_kit::paste::pasted_path::choose_pasted_path;
use codex_kit::paste::pasted_path::normalize_pasted_path;
use codex_kit::paste::query::normalize_pasted_search_query;
use codex_kit::paste::reading::next_capture_state;
use codex_kit::paste::reading::start_capture;
use codex_kit::paste::reading::CaptureEvent;
use codex_kit::paste::reading::CaptureState;
use codex_kit::paste::reading::ClipboardImage;
use codex_kit::paste::windows_path::convert_windows_path_to_wsl;
use codex_kit::paste::windows_path::normalize_windows_path;
use codex_kit::paste::wl_paste::keep_payload;
use codex_kit::paste::wl_paste::listing_choice;
use codex_kit::paste::wl_paste::normalize_payload;
use codex_kit::paste::wl_paste::paste_payload;
use codex_kit::paste::wl_paste::pick_image_type;
use codex_kit::paste::wsl::dumped_image_path;
use codex_kit::paste::wsl::is_probably_wsl;
use codex_kit::paste::wsl::powershell_commands;
use codex_kit::path::LocalPath;

const PNG_MAGIC: [u8; 8] = [0x89, 0x50, 0x4e, 0x47, 0x0d, 0x0a, 0x1a, 0x0a];

fn path(text: &str) -> LocalPath {
    LocalPath::from_text(text)
}

fn red_pixel_png() -> Vec<u8> {
    let reading = ClipboardReading::Pixels {
        width: 1,
        height: 1,
        rgba: vec![255, 0, 0, 255],
    };
    paste_image_as_png(reading).expect("encodes").0
}

fn linux(wayland_session: bool, wsl: bool) -> PasteHost {
    PasteHost {
        linux: true,
        wayland_session,
        wsl,
    }
}

fn ran(success: bool, stdout: &[u8]) -> PasteEvent {
    PasteEvent::CommandRan(Some(CommandOutput {
        success,
        stdout: stdout.to_vec(),
    }))
}

#[test]
fn collapses_whitespace() {
    assert_eq!(
        normalize_pasted_search_query("  alpha\n\tbeta\r\n gamma  "),
        Some(String::from("alpha beta gamma"))
    );
}

#[test]
fn blank_queries_are_none() {
    assert_eq!(normalize_pasted_search_query(" \n\t "), None);
    assert_eq!(normalize_pasted_search_query(""), None);
    assert_eq!(
        normalize_pasted_search_query("a\u{3000}b\u{a0}c"),
        Some(String::from("a b c"))
    );
}

#[test]
fn normalize_file_url() {
    let input = "file:///tmp/example.png";
    let result = normalize_pasted_path(input, false).expect("should parse file URL");
    assert_eq!(result, path("/tmp/example.png"));
}

#[test]
fn normalize_file_url_windows() {
    let input = r"C:\Temp\example.png";
    let result = normalize_pasted_path(input, false).expect("should parse file URL");
    assert_eq!(result, path(r"C:\Temp\example.png"));
    let result = normalize_pasted_path(input, true).expect("should parse file URL");
    let converted = convert_windows_path_to_wsl(input).expect("has a drive");
    assert_eq!(result, path(&converted));
}

#[test]
fn normalize_shell_escaped_single_path() {
    let input = "/home/user/My\\ File.png";
    let result = normalize_pasted_path(input, false).expect("should unescape shell-escaped path");
    assert_eq!(result, path("/home/user/My File.png"));
}

#[test]
fn normalize_simple_quoted_path_fallback() {
    let input = "\"/home/user/My File.png\"";
    let result = normalize_pasted_path(input, false).expect("should trim simple quotes");
    assert_eq!(result, path("/home/user/My File.png"));
}

#[test]
fn normalize_single_quoted_unix_path() {
    let input = "'/home/user/My File.png'";
    let result =
        normalize_pasted_path(input, false).expect("should trim single quotes via shlex");
    assert_eq!(result, path("/home/user/My File.png"));
}

#[test]
fn normalize_multiple_tokens_returns_none() {
    let input = "/home/user/a\\ b.png /home/user/c.png";
    let result = normalize_pasted_path(input, false);
    assert!(result.is_none());
}

#[test]
fn pasted_image_format_png_jpeg_unknown() {
    assert_eq!(
        pasted_image_format(&path("/a/b/c.PNG")),
        EncodedImageFormat::Png
    );
    assert_eq!(
        pasted_image_format(&path("/a/b/c.jpg")),
        EncodedImageFormat::Jpeg
    );
    assert_eq!(
        pasted_image_format(&path("/a/b/c.JPEG")),
        EncodedImageFormat::Jpeg
    );
    assert_eq!(
        pasted_image_format(&path("/a/b/c")),
        EncodedImageFormat::Other
    );
    assert_eq!(
        pasted_image_format(&path("/a/b/c.webp")),
        EncodedImageFormat::Other
    );
}

#[test]
fn normalize_single_quoted_windows_path() {
    let input = r"'C:\\Users\\Alice\\My File.jpeg'";
    let unquoted = r"C:\\Users\\Alice\\My File.jpeg";
    let result =
        normalize_pasted_path(input, false).expect("should trim single quotes on windows path");
    assert_eq!(result, path(unquoted));
    let result =
        normalize_pasted_path(input, true).expect("should trim single quotes on windows path");
    let converted = convert_windows_path_to_wsl(unquoted).expect("has a drive");
    assert_eq!(result, path(&converted));
}

#[test]
fn normalize_double_quoted_windows_path() {
    let input = r#""C:\\Users\\Alice\\My File.jpeg""#;
    let unquoted = r"C:\\Users\\Alice\\My File.jpeg";
    let result =
        normalize_pasted_path(input, false).expect("should trim double quotes on windows path");
    assert_eq!(result, path(unquoted));
    let result =
        normalize_pasted_path(input, true).expect("should trim double quotes on windows path");
    let converted = convert_windows_path_to_wsl(unquoted).expect("has a drive");
    assert_eq!(result, path(&converted));
}

#[test]
fn normalize_unquoted_windows_path_with_spaces() {
    let input = r"C:\\Users\\Alice\\My Pictures\\example image.png";
    let result = normalize_pasted_path(input, false).expect("should accept unquoted windows path");
    assert_eq!(
        result,
        path(r"C:\\Users\\Alice\\My Pictures\\example image.png")
    );
    let result = normalize_pasted_path(input, true).expect("should accept unquoted windows path");
    let converted = convert_windows_path_to_wsl(input).expect("has a drive");
    assert_eq!(result, path(&converted));
}

#[test]
fn normalize_unc_windows_path() {
    let input = r"\\\\server\\share\\folder\\file.jpg";
    let result = normalize_pasted_path(input, false).expect("should accept UNC windows path");
    assert_eq!(result, path(r"\\\\server\\share\\folder\\file.jpg"));
}

#[test]
fn pasted_image_format_with_windows_style_paths() {
    assert_eq!(
        pasted_image_format(&path(r"C:\\a\\b\\c.PNG")),
        EncodedImageFormat::Png
    );
    assert_eq!(
        pasted_image_format(&path(r"C:\\a\\b\\c.jpeg")),
        EncodedImageFormat::Jpeg
    );
    assert_eq!(
        pasted_image_format(&path(r"C:\\a\\b\\noext")),
        EncodedImageFormat::Other
    );
}

#[test]
fn normalize_windows_path_in_wsl() {
    let input = r"C:\\Users\\Alice\\Pictures\\example image.png";
    let result = normalize_pasted_path(input, true).expect("should convert windows path on wsl");
    assert_eq!(
        result,
        path("/mnt/c/Users/Alice/Pictures/example image.png")
    );
}

#[test]
fn file_urls_are_decoded() {
    assert_eq!(
        normalize_pasted_path(" file:///tmp/a%20b.png\n", false),
        Some(path("/tmp/a b.png"))
    );
    assert_eq!(normalize_pasted_path("file://host/tmp/a.png", false), None);
    assert_eq!(
        normalize_pasted_path("https://example.com/a.png", false),
        Some(path("https://example.com/a.png"))
    );
}

#[test]
fn empty_texts_are_no_paths() {
    assert_eq!(normalize_pasted_path("", false), None);
    assert_eq!(normalize_pasted_path("   ", false), None);
    assert_eq!(normalize_pasted_path("'unclosed", false), None);
}

#[test]
fn readings_choose_the_path() {
    let word = vec!["C:/x".to_string()];
    assert_eq!(
        choose_pasted_path("anything", false, Some(None), &word),
        None
    );
    assert_eq!(
        choose_pasted_path("plain", true, None, &word),
        Some(path("/mnt/c/x"))
    );
    assert_eq!(
        choose_pasted_path("plain", false, None, &vec!["/a b".to_string()]),
        Some(path("/a b"))
    );
    assert_eq!(choose_pasted_path("plain", false, None, &Vec::new()), None);
}

#[test]
fn windows_paths_under_wsl() {
    assert_eq!(
        convert_windows_path_to_wsl(r"D:\a\\b/c\"),
        Some("/mnt/d/a/b/c".to_string())
    );
    assert_eq!(convert_windows_path_to_wsl("z:"), Some("/mnt/z".to_string()));
    assert_eq!(convert_windows_path_to_wsl(r"\\server\share"), None);
    assert_eq!(convert_windows_path_to_wsl("1:/x"), None);
    assert_eq!(
        normalize_windows_path(r"\\server\share", true),
        Some(r"\\server\share".to_string())
    );
    assert_eq!(normalize_windows_path("C:x", true), None);
    assert_eq!(normalize_windows_path("/mnt/c", false), None);
}

#[test]
fn labels_of_formats() {
    assert_eq!(EncodedImageFormat::Png.label(), "PNG");
    assert_eq!(EncodedImageFormat::Jpeg.label(), "JPEG");
    assert_eq!(EncodedImageFormat::Other.label(), "IMG");
}

#[test]
fn messages_of_errors() {
    assert_eq!(
        PasteImageError::ClipboardUnavailable("x".into()).message(),
        "clipboard unavailable: x"
    );
    assert_eq!(
        PasteImageError::NoImage("x".into()).message(),
        "no image on clipboard: x"
    );
    assert_eq!(
        PasteImageError::EncodeFailed("x".into()).message(),
        "could not encode image: x"
    );
    assert_eq!(PasteImageError::IoError("x".into()).message(), "io error: x");
}

#[test]
fn pixels_become_a_png_file() {
    let reading = ClipboardReading::Pixels {
        width: 2,
        height: 1,
        rgba: vec![255, 0, 0, 255, 0, 0, 255, 128],
    };
    let (file, info) = paste_image_as_png(reading).expect("encodes");
    assert!(file.starts_with(&PNG_MAGIC));
    assert_eq!((info.width, info.height), (2, 1));
    assert_eq!(info.encoded_format, EncodedImageFormat::Png);
    let decoded = image::load_from_memory(&file).expect("decodes").to_rgba8();
    assert_eq!(decoded.dimensions(), (2, 1));
    assert_eq!(
        decoded.into_raw(),
        vec![255, 0, 0, 255, 0, 0, 255, 128]
    );
}

#[test]
fn images_in_files_become_png_files() {
    let image = image::load_from_memory(&red_pixel_png()).expect("decodes");
    let (file, info) = paste_image_as_png(ClipboardReading::FileImage(image)).expect("encodes");
    assert!(file.starts_with(&PNG_MAGIC));
    assert_eq!((info.width, info.height), (1, 1));
}

#[test]
fn captures_that_fail() {
    let short = ClipboardReading::Pixels {
        width: 2,
        height: 2,
        rgba: vec![0; 15],
    };
    assert!(matches!(
        paste_image_as_png(short),
        Err(PasteImageError::EncodeFailed(detail)) if detail == "invalid RGBA buffer"
    ));
    assert!(matches!(
        paste_image_as_png(ClipboardReading::Unsupported),
        Err(PasteImageError::ClipboardUnavailable(detail))
            if detail == "clipboard image paste is unsupported on Android"
    ));
    assert!(matches!(
        paste_image_as_png(ClipboardReading::Unavailable("x".into())),
        Err(PasteImageError::ClipboardUnavailable(detail)) if detail == "x"
    ));
    assert!(matches!(
        paste_image_as_png(ClipboardReading::NoImage("x".into())),
        Err(PasteImageError::NoImage(detail)) if detail == "x"
    ));
    assert!(matches!(
        finish_png(Err("x".into()), 1, 1),
        Err(PasteImageError::EncodeFailed(detail)) if detail == "x"
    ));
}

#[test]
fn payloads_become_png_files() {
    let jpeg = {
        let mut out = std::io::Cursor::new(Vec::new());
        image::load_from_memory(&red_pixel_png())
            .expect("decodes")
            .to_rgb8()
            .write_to(&mut out, image::ImageFormat::Jpeg)
            .expect("encodes");
        out.into_inner()
    };
    let (file, info) = normalize_payload(jpeg);
    assert!(file.starts_with(&PNG_MAGIC));
    assert_eq!((info.width, info.height), (1, 1));

    let (kept, info) = normalize_payload(vec![1, 2, 3]);
    assert_eq!(kept, vec![1, 2, 3]);
    assert_eq!((info.width, info.height), (0, 0));
    assert_eq!(info.encoded_format, EncodedImageFormat::Other);

    let (kept, info) = keep_payload(vec![1], Some((vec![9], 3, 4)));
    assert_eq!(kept, vec![9]);
    assert_eq!((info.width, info.height), (3, 4));
}

#[test]
fn the_most_wanted_type_is_picked() {
    assert_eq!(
        pick_image_type("text/plain\nimage/jpeg\nimage/png\n"),
        Some("image/png")
    );
    assert_eq!(pick_image_type(" image/webp \r\n"), Some("image/webp"));
    assert_eq!(pick_image_type("text/plain"), None);
    assert_eq!(
        listing_choice(true, "caf\u{e9}\nimage/png".as_bytes()),
        Some("image/png")
    );
    assert_eq!(listing_choice(true, &[0xff, 0x0a]), None);
    assert_eq!(listing_choice(false, "image/png".as_bytes()), None);
    assert_eq!(paste_payload(true, vec![1]), Some(vec![1]));
    assert_eq!(paste_payload(false, vec![1]), None);
}

#[test]
fn machines_that_are_taken_for_wsl() {
    assert!(is_probably_wsl(Some("Linux 5.15 Microsoft-standard"), false, false));
    assert!(is_probably_wsl(Some("Linux WSL2"), false, false));
    assert!(!is_probably_wsl(Some("Linux 6.1 Debian"), false, false));
    assert!(is_probably_wsl(None, true, false));
    assert!(is_probably_wsl(None, false, true));
    assert!(!is_probably_wsl(None, false, false));
}

#[test]
fn dumped_paths_are_read() {
    assert_eq!(
        dumped_image_path(true, "C:\\Temp\\x.png\r\n".as_bytes()),
        Some("C:\\Temp\\x.png".to_string())
    );
    assert_eq!(
        dumped_image_path(true, &[0x61, 0xff]),
        Some("a\u{fffd}".to_string())
    );
    assert_eq!(dumped_image_path(true, "  ".as_bytes()), None);
    assert_eq!(dumped_image_path(false, "x".as_bytes()), None);
    assert_eq!(powershell_commands(), vec!["powershell.exe", "pwsh", "powershell"]);
}

#[test]
fn wayland_fallback_skips_when_no_wayland_display() {
    let original = PasteImageError::NoImage("test".into());
    match wayland_fallback_applies(&original, false) {
        Err(PasteImageError::NoImage(msg)) => assert_eq!(msg, "test"),
        other => panic!("unexpected error variant: {other:?}"),
    }
}

#[test]
fn wayland_fallback_errors_for_non_clipboard_error() {
    let original = PasteImageError::EncodeFailed("test".into());
    let result = wayland_fallback_applies(&original, true);
    assert!(matches!(result, Err(PasteImageError::EncodeFailed(_))));
    let result = wsl_fallback_applies(&original, true);
    assert!(matches!(result, Err(PasteImageError::EncodeFailed(_))));
}

#[test]
fn wayland_fallback_saves_a_png_file() {
    let original = PasteImageError::NoImage("arboard fallback path".into());
    let host = linux(true, false);
    let state = paste_image_to_temp_png(Err(original), host);
    assert_eq!(
        command_line(&state),
        Some(vec!["wl-paste".to_string(), "--list-types".to_string()])
    );
    let state = next_paste_state(state, ran(true, "image/png\n".as_bytes()), host);
    assert_eq!(
        command_line(&state),
        Some(vec![
            "wl-paste".to_string(),
            "--no-newline".to_string(),
            "--type".to_string(),
            "image/png".to_string(),
        ])
    );
    let state = next_paste_state(state, ran(true, &red_pixel_png()), host);
    assert_eq!(
        temp_file_name(&state),
        Some(("codex-clipboard-wayland-", ".png"))
    );
    match &state {
        PasteState::SavingPayload { image, .. } => {
            assert!(image.bytes.starts_with(&PNG_MAGIC));
            assert_eq!((image.info.width, image.info.height), (1, 1));
        }
        _ => panic!("the payload should be saved"),
    }
    let state = next_paste_state(state, PasteEvent::Saved(Ok(path("/tmp/x.png"))), host);
    match state {
        PasteState::Done { result: Ok((kept, info)) } => {
            assert_eq!(kept, path("/tmp/x.png"));
            assert_eq!(info.encoded_format, EncodedImageFormat::Png);
        }
        _ => panic!("the paste should be done"),
    }
}

#[test]
fn empty_payloads_are_no_images() {
    let original = PasteImageError::NoImage("first".into());
    assert!(matches!(
        wayland_image(Some(Vec::new()), &original),
        Err(PasteImageError::NoImage(detail))
            if detail == "wl-paste returned an empty image payload"
    ));
    assert!(matches!(
        wayland_image(None, &original),
        Err(PasteImageError::NoImage(detail)) if detail == "first"
    ));
}

#[test]
fn sessions_without_images_leave_the_error() {
    let host = linux(true, false);
    for listing in [ran(false, "image/png".as_bytes()), ran(true, "text/plain".as_bytes())] {
        let error = PasteImageError::NoImage("first".into());
        let state = paste_image_to_temp_png(Err(error), host);
        let state = next_paste_state(state, listing, host);
        assert!(matches!(
            state,
            PasteState::Done { result: Err(PasteImageError::NoImage(detail)) } if detail == "first"
        ));
    }
    for payload in [ran(false, &[1]), ran(true, &[])] {
        let error = PasteImageError::NoImage("first".into());
        let state = paste_image_to_temp_png(Err(error), host);
        let state = next_paste_state(state, ran(true, "image/bmp".as_bytes()), host);
        let state = next_paste_state(state, payload, host);
        assert!(matches!(
            state,
            PasteState::Done { result: Err(PasteImageError::NoImage(detail)) } if detail == "first"
        ));
    }
}

#[test]
fn windows_is_asked_under_wsl() {
    let host = linux(true, true);
    let error = PasteImageError::ClipboardUnavailable("first".into());
    let state = paste_image_to_temp_png(Err(error), host);
    let state = next_paste_state(state, PasteEvent::CommandRan(None), host);
    let command = command_line(&state).expect("a command");
    assert_eq!(command[0], "powershell.exe");
    assert_eq!(command[1..3], ["-NoProfile", "-Command"]);
    assert!(command[3].ends_with("Write-Output $p } else { exit 1 }"));
    let state = next_paste_state(state, ran(false, "C:/no".as_bytes()), host);
    assert_eq!(command_line(&state).expect("a command")[0], "pwsh");
    let state = next_paste_state(state, ran(true, "C:\\T\\x.png\r\n".as_bytes()), host);
    match &state {
        PasteState::ReadingSize { path: place, .. } => assert_eq!(*place, path("/mnt/c/T/x.png")),
        _ => panic!("the size should be read"),
    }
    let state = next_paste_state(state, PasteEvent::Size(Some((3, 4))), host);
    match state {
        PasteState::Done { result: Ok((_, info)) } => {
            assert_eq!((info.width, info.height), (3, 4));
        }
        _ => panic!("the paste should be done"),
    }
}

#[test]
fn the_first_error_stands() {
    let host = linux(false, true);
    let error = PasteImageError::NoImage("first".into());
    let state = paste_image_to_temp_png(Err(error), host);
    let state = next_paste_state(state, PasteEvent::CommandRan(None), host);
    let state = next_paste_state(state, ran(true, "  ".as_bytes()), host);
    assert_eq!(command_line(&state).expect("a command")[0], "powershell");
    let state = next_paste_state(state, PasteEvent::CommandRan(None), host);
    assert!(command_line(&state).is_none());
    assert!(matches!(
        state,
        PasteState::Done { result: Err(PasteImageError::NoImage(detail)) } if detail == "first"
    ));
    let elsewhere = PasteHost {
        linux: false,
        wayland_session: true,
        wsl: true,
    };
    let state =
        paste_image_to_temp_png(Err(PasteImageError::NoImage("first".into())), elsewhere);
    assert!(matches!(state, PasteState::Done { result: Err(_) }));
}

#[test]
fn captures_are_saved() {
    let info = PastedImageInfo {
        width: 1,
        height: 1,
        encoded_format: EncodedImageFormat::Png,
    };
    let host = linux(true, true);
    let state = paste_image_to_temp_png(Ok((vec![7], info)), host);
    assert_eq!(temp_file_name(&state), Some(("codex-clipboard-", ".png")));
    let unasked = next_paste_state(state, PasteEvent::Size(None), host);
    assert!(matches!(unasked, PasteState::SavingCapture { .. }));
    let failed = next_paste_state(unasked, PasteEvent::Saved(Err("full".into())), host);
    assert!(temp_file_name(&failed).is_none());
    assert!(matches!(
        failed,
        PasteState::Done { result: Err(PasteImageError::IoError(detail)) } if detail == "full"
    ));
}

#[test]
fn quoted_paths_are_taken_whole() {
    assert_eq!(
        normalize_pasted_path("'/a \\b #c'", false),
        Some(path("/a \\b #c"))
    );
    assert_eq!(
        normalize_pasted_path("\"/a 'b' $c\"", false),
        Some(path("/a 'b' $c"))
    );
    assert_eq!(
        normalize_pasted_path("file:///tmp/a-b_1/c.tar.gz", false),
        Some(path("/tmp/a-b_1/c.tar.gz"))
    );
}

#[test]
fn samples_behind_the_image_do_not_count() {
    let reading = ClipboardReading::Pixels {
        width: 1,
        height: 1,
        rgba: vec![1, 2, 3, 255, 9, 9, 9, 9],
    };
    let (file, info) = paste_image_as_png(reading).expect("encodes");
    assert_eq!((info.width, info.height), (1, 1));
    let decoded = image::load_from_memory(&file).expect("decodes").to_rgba8();
    assert_eq!(decoded.into_raw(), vec![1, 2, 3, 255]);
}

#[test]
fn images_whose_buffer_does_not_fit_are_refused() {
    let overlong = image::RgbaImage::from_raw(1, 1, vec![0; 8]).expect("long enough");
    let reading = ClipboardReading::FileImage(image::DynamicImage::ImageRgba8(overlong));
    assert!(matches!(
        paste_image_as_png(reading),
        Err(PasteImageError::EncodeFailed(detail)) if detail == "invalid RGBA buffer"
    ));
}

#[test]
fn images_without_pixels_are_not_encoded() {
    let reading = ClipboardReading::Pixels {
        width: 0,
        height: 0,
        rgba: Vec::new(),
    };
    assert!(matches!(
        paste_image_as_png(reading),
        Err(PasteImageError::EncodeFailed(detail)) if detail != "invalid RGBA buffer"
    ));
}

fn listed(files: &[&str]) -> CaptureState {
    let state = start_capture(true);
    assert!(matches!(state, CaptureState::OpenClipboard));
    let state = next_capture_state(state, CaptureEvent::ClipboardOpened(Ok(())));
    assert!(matches!(state, CaptureState::ListFiles));
    let files = files.iter().map(|file| path(file)).collect();
    next_capture_state(state, CaptureEvent::FilesListed(Some(files)))
}

fn pixel() -> Result<ClipboardImage, String> {
    Ok(ClipboardImage {
        width: 1,
        height: 1,
        rgba: vec![0, 0, 0, 255],
    })
}

#[test]
fn the_first_file_that_opens_is_taken() {
    let state = listed(&["/a.txt", "/b.png", "/c.png"]);
    match &state {
        CaptureState::OpenFile { files, next: 0 } => assert_eq!(files[0], path("/a.txt")),
        _ => panic!("the first file should be opened"),
    }
    let state = next_capture_state(state, CaptureEvent::FileOpened(None));
    assert!(matches!(&state, CaptureState::OpenFile { next: 1, .. }));
    let image = image::load_from_memory(&red_pixel_png()).expect("decodes");
    let state = next_capture_state(state, CaptureEvent::FileOpened(Some(image)));
    let state = next_capture_state(state, CaptureEvent::ImageRead(pixel()));
    assert!(matches!(
        state,
        CaptureState::Captured { reading: ClipboardReading::FileImage(_) }
    ));
}

#[test]
fn image_data_come_last() {
    let state = next_capture_state(listed(&["/a.txt"]), CaptureEvent::FileOpened(None));
    assert!(matches!(state, CaptureState::ReadImage));
    let state = next_capture_state(state, CaptureEvent::ImageRead(pixel()));
    assert!(matches!(
        state,
        CaptureState::Captured { reading: ClipboardReading::Pixels { width: 1, height: 1, .. } }
    ));
    let state = listed(&[]);
    assert!(matches!(state, CaptureState::ReadImage));
    let state = next_capture_state(state, CaptureEvent::ImageRead(Err("empty".into())));
    assert!(matches!(
        state,
        CaptureState::Captured { reading: ClipboardReading::NoImage(reason) } if reason == "empty"
    ));
}

#[test]
fn clipboards_that_give_nothing() {
    let opened = next_capture_state(start_capture(true), CaptureEvent::ClipboardOpened(Ok(())));
    let unlisted = next_capture_state(opened, CaptureEvent::FilesListed(None));
    assert!(matches!(unlisted, CaptureState::ReadImage));
    let closed = next_capture_state(
        start_capture(true),
        CaptureEvent::ClipboardOpened(Err("no display".into())),
    );
    assert!(matches!(
        closed,
        CaptureState::Captured { reading: ClipboardReading::Unavailable(reason) }
            if reason == "no display"
    ));
    assert!(matches!(
        start_capture(false),
        CaptureState::Captured { reading: ClipboardReading::Unsupported }
    ));
}

#[test]
fn white_space_around_a_path_does_not_count() {
    assert_eq!(
        normalize_pasted_path("  /a\\ b.png \n", false),
        Some(path("/a b.png"))
    );
    assert_eq!(
        normalize_pasted_path("\t'/a b.png' ", false),
        Some(path("/a b.png"))
    );
    assert_eq!(
        normalize_pasted_path(" \"file:///tmp/a.png\"\n", false),
        Some(path("/tmp/a.png"))
    );
}
